use redtake::decimal::Decimal;
use redtake::plan::StreamIndexPlan;
use redtake::video::Project;

#[test]
fn three_segments_without_background_and_music() {
    let plan = StreamIndexPlan::new(false, false, 3);
    assert_eq!(plan.background, None);
    assert_eq!(plan.first_image, 0);
    assert_eq!(plan.images, 3);
    assert_eq!(plan.image(0), 0);
    assert_eq!(plan.image(2), 2);
    assert_eq!(plan.speech, 3);
    assert_eq!(plan.music, None);
}

#[test]
fn three_segments_with_background_and_music() {
    let plan = StreamIndexPlan::new(true, true, 3);
    assert_eq!(plan.background, Some(0));
    assert_eq!(plan.image(0), 1);
    assert_eq!(plan.image(1), 2);
    assert_eq!(plan.image(2), 3);
    assert_eq!(plan.speech, 4);
    assert_eq!(plan.music, Some(5));
}

#[test]
fn music_comes_right_after_speech() {
    let plan = StreamIndexPlan::new(false, true, 0);
    assert_eq!(plan.speech, 0);
    assert_eq!(plan.music, Some(1));
    let plan = StreamIndexPlan::new(true, false, 0);
    assert_eq!(plan.background, Some(0));
    assert_eq!(plan.speech, 1);
    assert_eq!(plan.music, None);
}

#[test]
fn the_plan_of_a_project_follows_its_features() {
    let mut project = Project::default();
    project.add_overlay("a.png", "a.mp3", Decimal { units: 1_000_000 });
    project.add_overlay("b.png", "b.mp3", Decimal { units: 1_000_000 });
    assert_eq!(project.index_plan(), StreamIndexPlan::new(false, false, 2));
    project.video.background = "bg.mp4".to_owned();
    project.music.audio = "bgm.mp3".to_owned();
    let plan = project.index_plan();
    assert_eq!(plan, StreamIndexPlan::new(true, true, 2));
    assert_eq!(plan.speech, 3);
    assert_eq!(plan.music, Some(4));
}
