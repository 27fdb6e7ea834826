//! The duration probe: the arguments of the prober run and the reading of
//! what it prints.

use vstd::prelude::*;
use crate::command::arg_views;
use crate::decimal::{decimal_units, Decimal};
use crate::text::{from_chars, to_chars};

verus! {

/// What the prober printed is no duration that this crate can hold.
#[derive(Debug, Clone, PartialEq, Eq)]
pub struct ProbeParseError {
    /// What the prober printed, as it was received.
    pub output: String,
}

/// `c` is a blank: a space, a tab, a line feed or a carriage return.
pub open spec fn is_blank(c: char) -> bool {
    c == ' ' || c == '\t' || c == '\n' || c == '\r'
}

/// `s` without the blanks at its end.
pub open spec fn trim_blanks(s: Seq<char>) -> Seq<char>
    decreases s.len(),
{
    if s.len() > 0 && is_blank(s.last()) {
        trim_blanks(s.drop_last())
    } else {
        s
    }
}

/// The arguments of the prober run that prints the duration of the
/// container at `path` in seconds, as a decimal number and nothing else.
pub fn prober_arguments(path: &str) -> (args: Vec<String>)
    ensures
        arg_views(args@) == seq![
            "-v"@,
            "error"@,
            "-show_entries"@,
            "format=duration"@,
            "-of"@,
            "default=noprint_wrappers=1:nokey=1"@,
            path@,
        ],
{
    let mut args: Vec<String> = Vec::new();
    args.push(String::from_str("-v"));
    args.push(String::from_str("error"));
    args.push(String::from_str("-show_entries"));
    args.push(String::from_str("format=duration"));
    args.push(String::from_str("-of"));
    args.push(String::from_str("default=noprint_wrappers=1:nokey=1"));
    args.push(String::from_str(path));
    assert(arg_views(args@) =~= seq![
        "-v"@,
        "error"@,
        "-show_entries"@,
        "format=duration"@,
        "-of"@,
        "default=noprint_wrappers=1:nokey=1"@,
        path@,
    ]);
    args
}

/// `text` without the blanks at its end.
pub fn trim_end(text: &str) -> (trimmed: String)
    ensures
        trimmed@ == trim_blanks(text@),
{
    let chars = to_chars(text);
    let mut end: usize = chars.len();
    assert(chars@.take(end as int) =~= chars@);
    while end > 0 && (chars[end - 1] == ' ' || chars[end - 1] == '\t' || chars[end - 1] == '\n'
        || chars[end - 1] == '\r')
        invariant
            end <= chars.len(),
            trim_blanks(chars@) == trim_blanks(chars@.take(end as int)),
        decreases end,
    {
        assert(chars@.take(end as int).drop_last() =~= chars@.take(end - 1));
        end -= 1;
    }
    let mut kept = chars;
    kept.truncate(end);
    assert(kept@ =~= chars@.take(end as int));
    from_chars(&kept)
}

/// Reads the duration that the prober printed: a decimal number of seconds
/// with at most six fraction digits, followed by blanks or nothing. Fails
/// on anything else, and on a number too large to hold.
pub fn duration(output: &str) -> (r: Result<Decimal, ProbeParseError>)
    ensures
        match r {
            Ok(d) => decimal_units(trim_blanks(output@)) == Some(d.units as nat),
            Err(e) => e.output@ == output@ && (decimal_units(trim_blanks(output@)) matches Some(u)
                ==> u > u64::MAX),
        },
{
    let trimmed = trim_end(output);
    match Decimal::parse(trimmed.as_str()) {
        Some(d) => Ok(d),
        None => Err(ProbeParseError { output: String::from_str(output) }),
    }
}

} // verus!
