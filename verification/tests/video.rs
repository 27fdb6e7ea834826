use redtake::decimal::Decimal;
use redtake::video::{Music, Overlay, OverlayMeta, ProgressBar, Project, Video};

fn seconds(units: u64) -> Decimal {
    Decimal { units }
}

#[test]
fn default_project_has_the_fixed_defaults() {
    let project = Project::default();
    let expected = Project {
        video: Video {
            width: 1080,
            height: 1920,
            crop_x: seconds(1_166_600_000),
            crop_y: seconds(0),
            background: "color=white".to_owned(),
            background_start_time: seconds(0),
        },
        music: Music { audio: String::new(), volume: seconds(100_000), start_time: seconds(0) },
        progress_bar: ProgressBar {
            enable: true,
            solid: false,
            height: 10,
            color: "#FF4500".to_owned(),
        },
        overlay: Overlay { opacity: seconds(1_000_000), padding: 100, overlays: vec![] },
    };
    assert_eq!(project, expected);
}

#[test]
fn total_of_no_segments_is_zero() {
    let project = Project::default();
    assert_eq!(project.len(), 0);
}

#[test]
fn total_is_the_sum_of_the_durations() {
    let mut project = Project::default();
    project.add_overlay("images/a.png", "audio/a.mp3", seconds(2_000_000));
    project.add_overlay("images/b.png", "audio/b.mp3", seconds(3_500_000));
    project.add_overlay("images/c.png", "audio/c.mp3", seconds(1_000_000));
    assert_eq!(project.len(), 6_500_000);
}

#[test]
fn total_does_not_depend_on_the_order() {
    let mut forward = Project::default();
    forward.add_overlay("a.png", "a.mp3", seconds(2_000_000));
    forward.add_overlay("b.png", "b.mp3", seconds(3_500_000));
    forward.add_overlay("c.png", "c.mp3", seconds(1_000_001));
    let mut backward = Project::default();
    backward.add_overlay("c.png", "c.mp3", seconds(1_000_001));
    backward.add_overlay("b.png", "b.mp3", seconds(3_500_000));
    backward.add_overlay("a.png", "a.mp3", seconds(2_000_000));
    assert_eq!(forward.len(), 6_500_001);
    assert_eq!(forward.len(), backward.len());
}

#[test]
fn total_goes_beyond_one_machine_word() {
    let mut project = Project::default();
    project.add_overlay("a.png", "a.mp3", seconds(u64::MAX));
    project.add_overlay("b.png", "b.mp3", seconds(u64::MAX));
    assert_eq!(project.len(), 2 * (u64::MAX as u128));
}

#[test]
fn add_overlay_appends_in_order() {
    let mut project = Project::default();
    project.add_overlay("images/title.png", "audio/title.mp3", seconds(1_500_000));
    project.add_overlay("images/comment_1.png", "audio/comment_1.mp3", seconds(2_250_000));
    assert_eq!(
        project.overlay.overlays,
        vec![
            OverlayMeta {
                image: "images/title.png".to_owned(),
                audio: "audio/title.mp3".to_owned(),
                duration: seconds(1_500_000),
            },
            OverlayMeta {
                image: "images/comment_1.png".to_owned(),
                audio: "audio/comment_1.mp3".to_owned(),
                duration: seconds(2_250_000),
            },
        ]
    );
    assert_eq!(project.video, Project::default().video);
    assert_eq!(project.music, Project::default().music);
    assert_eq!(project.progress_bar, Project::default().progress_bar);
}

#[test]
fn a_color_directive_is_no_background_asset() {
    let mut project = Project::default();
    assert!(!project.has_background());
    project.video.background = "color=black".to_owned();
    assert!(!project.has_background());
    project.video.background = "background.mp4".to_owned();
    assert!(project.has_background());
    project.video.background = "colors.mp4".to_owned();
    assert!(project.has_background());
    project.video.background = String::new();
    assert!(project.has_background());
}

#[test]
fn an_empty_music_path_is_no_music() {
    let mut project = Project::default();
    assert!(!project.has_bgm());
    project.music.audio = "music.mp3".to_owned();
    assert!(project.has_bgm());
}
