use redtake::decimal::Decimal;
use redtake::graph::{render_graph, Stage};
use redtake::video::Project;

fn seconds(units: u64) -> Decimal {
    Decimal { units }
}

fn three_segments() -> Project {
    let mut project = Project::default();
    project.add_overlay("images/a.png", "audio/a.mp3", seconds(2_000_000));
    project.add_overlay("images/b.png", "audio/b.mp3", seconds(3_500_000));
    project.add_overlay("images/c.png", "audio/c.mp3", seconds(1_000_000));
    project
}

fn windows(project: &Project) -> Vec<(u128, u128)> {
    let mut found = vec![];
    for stage in project.stages() {
        if let Stage::Composite { start, end, .. } = stage {
            found.push((start, end));
        }
    }
    found
}

fn opacity_stages(project: &Project) -> usize {
    project.stages().iter().filter(|s| matches!(s, Stage::Opacity { .. })).count()
}

#[test]
fn windows_neither_overlap_nor_gap() {
    let project = three_segments();
    assert_eq!(
        windows(&project),
        vec![(0, 2_000_000), (2_000_000, 5_500_000), (5_500_000, 6_500_000)]
    );
}

#[test]
fn windows_are_written_in_seconds() {
    let project = three_segments();
    let graph = project.filter_graph();
    assert!(graph.contains("enable='between(t,0,2)'"));
    assert!(graph.contains("enable='between(t,2,5.5)'"));
    assert!(graph.contains("enable='between(t,5.5,6.5)'"));
}

#[test]
fn full_opacity_has_no_opacity_stage() {
    let project = three_segments();
    assert_eq!(opacity_stages(&project), 0);
    assert!(!project.filter_graph().contains("colorchannelmixer"));
}

#[test]
fn the_threshold_itself_has_no_opacity_stage() {
    let mut project = three_segments();
    project.overlay.opacity = seconds(990_000);
    assert_eq!(opacity_stages(&project), 0);
    assert!(!project.filter_graph().contains("colorchannelmixer"));
}

#[test]
fn just_below_the_threshold_every_segment_has_an_opacity_stage() {
    let mut project = three_segments();
    project.overlay.opacity = seconds(989_999);
    assert_eq!(opacity_stages(&project), 3);
    let stages = project.stages();
    assert_eq!(stages.len(), 1 + 3 * 3 + 1);
    assert_eq!(stages[2], Stage::Opacity { input: 0, alpha: seconds(989_999) });
    assert_eq!(stages[5], Stage::Opacity { input: 1, alpha: seconds(989_999) });
    assert_eq!(stages[8], Stage::Opacity { input: 2, alpha: seconds(989_999) });
}

#[test]
fn no_segment_means_no_opacity_stage_at_any_opacity() {
    let mut project = Project::default();
    project.overlay.opacity = seconds(500_000);
    assert_eq!(opacity_stages(&project), 0);
    assert_eq!(project.stages().len(), 2);
}

#[test]
fn stages_of_a_synthesized_background() {
    let mut project = Project::default();
    project.add_overlay("images/a.png", "audio/a.mp3", seconds(2_000_000));
    assert_eq!(
        project.stages(),
        vec![
            Stage::Canvas { directive: "color=white".to_owned(), width: 1080, height: 1920 },
            Stage::Scale { input: 0, width: 880 },
            Stage::Composite { input: 0, start: 0, end: 2_000_000 },
            Stage::ProgressBar {
                color: "#FF4500".to_owned(),
                width: 1080,
                height: 10,
                total: 2_000_000,
            },
        ]
    );
}

#[test]
fn stages_of_a_background_asset_with_everything_on() {
    let mut project = Project::default();
    project.video.background = "bg.mp4".to_owned();
    project.progress_bar.solid = true;
    project.overlay.opacity = seconds(500_000);
    project.add_overlay("images/a.png", "audio/a.mp3", seconds(2_000_000));
    project.add_overlay("images/b.png", "audio/b.mp3", seconds(500_000));
    assert_eq!(
        project.stages(),
        vec![
            Stage::Background {
                input: 0,
                width: 1080,
                height: 1920,
                crop_x: seconds(1_166_600_000),
                crop_y: seconds(0),
            },
            Stage::Scale { input: 1, width: 880 },
            Stage::Opacity { input: 1, alpha: seconds(500_000) },
            Stage::Composite { input: 1, start: 0, end: 2_000_000 },
            Stage::Scale { input: 2, width: 880 },
            Stage::Opacity { input: 2, alpha: seconds(500_000) },
            Stage::Composite { input: 2, start: 2_000_000, end: 2_500_000 },
            Stage::BarTrack { width: 1080, height: 10 },
            Stage::ProgressBar {
                color: "#FF4500".to_owned(),
                width: 1080,
                height: 10,
                total: 2_500_000,
            },
        ]
    );
}

#[test]
fn graph_text_of_a_background_asset_with_everything_on() {
    let mut project = Project::default();
    project.video.background = "bg.mp4".to_owned();
    project.progress_bar.solid = true;
    project.overlay.opacity = seconds(500_000);
    project.add_overlay("images/a.png", "audio/a.mp3", seconds(2_000_000));
    assert_eq!(
        project.filter_graph(),
        "[0:v]scale=-1:1920,crop=1080:1920:1166.6:0[main];\
         [1:v]scale=880:-1[overlay1];\
         [overlay1]format=argb,colorchannelmixer=aa=0.5[overlay1];\
         [main][overlay1]overlay=(main_w-overlay_w)/2:(main_h-overlay_h)/2:enable='between(t,0,2)'[main];\
         color=c=#525252:s=1080x10[solid_bar];\
         [main][solid_bar]overlay=main_w-overlay_w:main_h-overlay_h:shortest=1[main];\
         color=c=#FF4500:s=1080x10[overlay_bar];\
         [main][overlay_bar]overlay=-w+(w/2)*t:H-h:shortest=1[main]"
    );
}

#[test]
fn the_bar_can_be_switched_off() {
    let mut project = Project::default();
    project.progress_bar.enable = false;
    project.progress_bar.solid = true;
    assert_eq!(
        project.stages(),
        vec![Stage::Canvas { directive: "color=white".to_owned(), width: 1080, height: 1920 }]
    );
    assert_eq!(project.filter_graph(), "color=white:s=1080x1920[main]");
}

#[test]
fn padding_is_taken_off_on_both_sides() {
    let mut project = Project::default();
    project.video.width = 720;
    project.overlay.padding = 60;
    project.add_overlay("a.png", "a.mp3", seconds(1_000_000));
    assert_eq!(project.stages()[1], Stage::Scale { input: 0, width: 600 });
    project.overlay.padding = 400;
    assert_eq!(project.stages()[1], Stage::Scale { input: 0, width: -80 });
    assert!(project.filter_graph().contains("[0:v]scale=-80:-1[overlay0]"));
}

#[test]
fn an_empty_graph_has_no_text() {
    assert_eq!(render_graph(&vec![]), "");
}

#[test]
fn stages_are_joined_by_semicolons() {
    let stages = vec![
        Stage::BarTrack { width: 4, height: 2 },
        Stage::Scale { input: 3, width: 10 },
    ];
    assert_eq!(
        render_graph(&stages),
        "color=c=#525252:s=4x2[solid_bar];\
         [main][solid_bar]overlay=main_w-overlay_w:main_h-overlay_h:shortest=1[main];\
         [3:v]scale=10:-1[overlay3]"
    );
}

#[test]
fn the_audio_mix_needs_music() {
    let mut project = three_segments();
    assert_eq!(project.audio_mix(), None);
    project.music.audio = "bgm.mp3".to_owned();
    assert_eq!(
        project.audio_mix(),
        Some("[4:a]volume=0.1[bgm];[3:a][bgm]amerge=inputs=2[bgm]".to_owned())
    );
    project.video.background = "bg.mp4".to_owned();
    assert_eq!(
        project.audio_mix(),
        Some("[5:a]volume=0.1[bgm];[4:a][bgm]amerge=inputs=2[bgm]".to_owned())
    );
}
