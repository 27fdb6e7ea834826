use redtake::command::{
    command_line, concat_arguments, exit_outcome, quote_argument, EncoderInvocationError,
};
use redtake::decimal::Decimal;
use redtake::graph::Stage;
use redtake::video::Project;

fn seconds(units: u64) -> Decimal {
    Decimal { units }
}

fn strings(items: &[&str]) -> Vec<String> {
    items.iter().map(|s| s.to_string()).collect()
}

#[test]
fn white_background_two_segments_and_a_bar() {
    let mut project = Project::default();
    project.add_overlay("images/title.png", "audio/title.mp3", seconds(2_000_000));
    project.add_overlay("images/comment_1.png", "audio/comment_1.mp3", seconds(3_000_000));

    let stages = project.stages();
    let composites = stages.iter().filter(|s| matches!(s, Stage::Composite { .. })).count();
    let bars = stages.iter().filter(|s| matches!(s, Stage::ProgressBar { .. })).count();
    let tracks = stages.iter().filter(|s| matches!(s, Stage::BarTrack { .. })).count();
    assert_eq!(composites, 2);
    assert_eq!(bars, 1);
    assert_eq!(tracks, 0);
    assert_eq!(project.audio_mix(), None);

    let graph = "color=white:s=1080x1920[main];\
                 [0:v]scale=880:-1[overlay0];\
                 [main][overlay0]overlay=(main_w-overlay_w)/2:(main_h-overlay_h)/2:enable='between(t,0,2)'[main];\
                 [1:v]scale=880:-1[overlay1];\
                 [main][overlay1]overlay=(main_w-overlay_w)/2:(main_h-overlay_h)/2:enable='between(t,2,5)'[main];\
                 color=c=#FF4500:s=1080x10[overlay_bar];\
                 [main][overlay_bar]overlay=-w+(w/5)*t:H-h:shortest=1[main]";
    let args = project.generate("export.mp4");
    assert_eq!(
        args,
        strings(&[
            "-hide_banner",
            "-y",
            "-i",
            "images/title.png",
            "-i",
            "images/comment_1.png",
            "-i",
            "audio/tts.mp3",
            "-t",
            "5",
            "-filter_complex",
            graph,
            "-map",
            "[main]",
            "-map",
            "2:a",
            "-c:v",
            "libx264",
            "-c:a",
            "copy",
            "export.mp4",
        ])
    );
    assert_eq!(args.iter().filter(|a| a.as_str() == "-filter_complex").count(), 1);
    assert!(!args.iter().any(|a| a.contains("bgm")));
}

#[test]
fn background_asset_and_music() {
    let mut project = Project::default();
    project.video.background = "assets/bg.mp4".to_owned();
    project.video.background_start_time = seconds(12_500_000);
    project.music.audio = "assets/bgm.mp3".to_owned();
    project.music.start_time = seconds(3_000_000);
    project.progress_bar.enable = false;
    project.add_overlay("images/title.png", "audio/title.mp3", seconds(1_250_000));
    let args = project.generate("export (1).mp4");
    assert_eq!(
        args,
        strings(&[
            "-hide_banner",
            "-y",
            "-ss",
            "12.5",
            "-t",
            "1.25",
            "-i",
            "assets/bg.mp4",
            "-i",
            "images/title.png",
            "-i",
            "audio/tts.mp3",
            "-ss",
            "3",
            "-t",
            "1.25",
            "-i",
            "assets/bgm.mp3",
            "-filter_complex",
            "[0:v]scale=-1:1920,crop=1080:1920:1166.6:0[main];\
             [1:v]scale=880:-1[overlay1];\
             [main][overlay1]overlay=(main_w-overlay_w)/2:(main_h-overlay_h)/2:enable='between(t,0,1.25)'[main]",
            "-filter_complex",
            "[3:a]volume=0.1[bgm];[2:a][bgm]amerge=inputs=2[bgm]",
            "-map",
            "[main]",
            "-map",
            "[bgm]",
            "-shortest",
            "export (1).mp4",
        ])
    );
}

#[test]
fn one_input_flag_per_planned_index() {
    let mut project = Project::default();
    project.video.background = "bg.mp4".to_owned();
    project.music.audio = "bgm.mp3".to_owned();
    for i in 0..4 {
        project.add_overlay(&format!("images/{}.png", i), "audio/x.mp3", seconds(1_000_000));
    }
    let plan = project.index_plan();
    let args = project.generate("out.mp4");
    let inputs: Vec<&String> = args
        .iter()
        .enumerate()
        .filter(|(i, _)| *i > 0 && args[*i - 1] == "-i")
        .map(|(_, a)| a)
        .collect();
    assert_eq!(inputs.len() as u128, plan.speech + 2);
    assert_eq!(inputs[0], "bg.mp4");
    assert_eq!(inputs[plan.image(0) as usize], "images/0.png");
    assert_eq!(inputs[plan.image(3) as usize], "images/3.png");
    assert_eq!(inputs[plan.speech as usize], "audio/tts.mp3");
    assert_eq!(inputs[plan.music.unwrap() as usize], "bgm.mp3");
}

#[test]
fn arguments_with_a_space_or_a_semicolon_are_quoted() {
    assert_eq!(quote_argument("export (1).mp4"), "\"export (1).mp4\"");
    assert_eq!(quote_argument("a;b"), "\"a;b\"");
    assert_eq!(quote_argument(" "), "\" \"");
    assert_eq!(quote_argument(";"), "\";\"");
}

#[test]
fn arguments_without_either_are_bare() {
    assert_eq!(quote_argument("export.mp4"), "export.mp4");
    assert_eq!(quote_argument("-filter_complex"), "-filter_complex");
    assert_eq!(quote_argument("[main]"), "[main]");
    assert_eq!(quote_argument("a\tb"), "a\tb");
    assert_eq!(quote_argument(""), "");
}

#[test]
fn a_command_line_is_the_program_and_its_arguments() {
    assert_eq!(command_line("ffmpeg", &vec![]), "ffmpeg");
    assert_eq!(
        command_line("ffmpeg", &strings(&["-y", "a b", "x;y", "out.mp4"])),
        "ffmpeg -y \"a b\" \"x;y\" out.mp4"
    );
}

#[test]
fn the_command_of_a_project() {
    let mut project = Project::default();
    project.progress_bar.enable = false;
    project.add_overlay("images/a.png", "audio/a.mp3", seconds(1_000_000));
    assert_eq!(
        project.command("export (2).mp4"),
        "ffmpeg -hide_banner -y -i images/a.png -i audio/tts.mp3 -t 1 -filter_complex \
         \"color=white:s=1080x1920[main];[0:v]scale=880:-1[overlay0];\
         [main][overlay0]overlay=(main_w-overlay_w)/2:(main_h-overlay_h)/2:enable='between(t,0,1)'[main]\" \
         -map [main] -map 1:a -c:v libx264 -c:a copy \"export (2).mp4\""
    );
}

#[test]
fn the_manifest_lists_the_speech_clips_in_order() {
    let mut project = Project::default();
    assert_eq!(project.speech_manifest(), "");
    project.add_overlay("images/title.png", "audio/title.mp3", seconds(1_000_000));
    project.add_overlay("images/comment_1.png", "audio/comment_1.mp3", seconds(1_000_000));
    project.add_overlay("images/other.png", "elsewhere/other.mp3", seconds(1_000_000));
    assert_eq!(
        project.speech_manifest(),
        "file 'title.mp3'\nfile 'comment_1.mp3'\nfile 'elsewhere/other.mp3'\n"
    );
}

#[test]
fn the_concatenation_run_has_fixed_arguments() {
    assert_eq!(
        concat_arguments(),
        strings(&["-y", "-f", "concat", "-i", "audio/tts.txt", "-c", "copy", "audio/tts.mp3"])
    );
}

#[test]
fn only_the_exit_code_zero_is_a_success() {
    assert_eq!(exit_outcome("ffmpeg", Some(0)), Ok(()));
    assert_eq!(
        exit_outcome("ffmpeg", Some(1)),
        Err(EncoderInvocationError::Failed { program: "ffmpeg".to_owned(), code: Some(1) })
    );
    assert_eq!(
        exit_outcome("ffprobe", Some(-1)),
        Err(EncoderInvocationError::Failed { program: "ffprobe".to_owned(), code: Some(-1) })
    );
    assert_eq!(
        exit_outcome("ffmpeg", None),
        Err(EncoderInvocationError::Failed { program: "ffmpeg".to_owned(), code: None })
    );
}
