use redtake::decimal::Decimal;
use redtake::probe::{duration, prober_arguments, trim_end, ProbeParseError};

#[test]
fn the_prober_is_asked_for_the_duration_alone() {
    assert_eq!(
        prober_arguments("audio/title.mp3"),
        vec![
            "-v",
            "error",
            "-show_entries",
            "format=duration",
            "-of",
            "default=noprint_wrappers=1:nokey=1",
            "audio/title.mp3",
        ]
    );
}

#[test]
fn a_printed_duration_is_read() {
    assert_eq!(duration("12.345000\n"), Ok(Decimal { units: 12_345_000 }));
    assert_eq!(duration("3.5"), Ok(Decimal { units: 3_500_000 }));
    assert_eq!(duration("7\r\n"), Ok(Decimal { units: 7_000_000 }));
    assert_eq!(duration("0.040000 \t\n"), Ok(Decimal { units: 40_000 }));
}

#[test]
fn anything_else_is_an_error_that_keeps_the_output() {
    assert_eq!(duration("N/A\n"), Err(ProbeParseError { output: "N/A\n".to_owned() }));
    assert_eq!(duration(""), Err(ProbeParseError { output: String::new() }));
    assert_eq!(duration("\n"), Err(ProbeParseError { output: "\n".to_owned() }));
    assert_eq!(duration(" 1.5"), Err(ProbeParseError { output: " 1.5".to_owned() }));
    assert_eq!(duration("1.5\n2.5\n"), Err(ProbeParseError { output: "1.5\n2.5\n".to_owned() }));
    assert_eq!(duration("-1.5"), Err(ProbeParseError { output: "-1.5".to_owned() }));
}

#[test]
fn blanks_are_cut_at_the_end_only() {
    assert_eq!(trim_end("a b \n\t\r"), "a b");
    assert_eq!(trim_end("  a"), "  a");
    assert_eq!(trim_end(" \n"), "");
    assert_eq!(trim_end(""), "");
}
