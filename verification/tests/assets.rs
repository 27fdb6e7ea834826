use redtake::assets::AssetMissingError;
use redtake::decimal::Decimal;
use redtake::video::Project;

fn paths(items: &[&str]) -> Vec<String> {
    items.iter().map(|s| s.to_string()).collect()
}

fn with_everything() -> Project {
    let mut project = Project::default();
    project.video.background = "bg.mp4".to_owned();
    project.music.audio = "bgm.mp3".to_owned();
    project.add_overlay("images/a.png", "audio/a.mp3", Decimal { units: 1_000_000 });
    project.add_overlay("images/b.png", "audio/b.mp3", Decimal { units: 1_000_000 });
    project
}

#[test]
fn a_synthesized_background_and_no_music_are_no_assets() {
    let mut project = Project::default();
    assert_eq!(project.assets(), Vec::<String>::new());
    project.add_overlay("images/a.png", "audio/a.mp3", Decimal { units: 1_000_000 });
    assert_eq!(project.assets(), paths(&["images/a.png", "audio/a.mp3"]));
    assert_eq!(project.check_assets(&paths(&["audio/a.mp3", "images/a.png", "x"])), Ok(()));
}

#[test]
fn assets_come_in_the_order_background_segments_music() {
    assert_eq!(
        with_everything().assets(),
        paths(&[
            "bg.mp4",
            "images/a.png",
            "audio/a.mp3",
            "images/b.png",
            "audio/b.mp3",
            "bgm.mp3"
        ])
    );
}

#[test]
fn the_first_missing_asset_is_reported() {
    let project = with_everything();
    assert_eq!(
        project.check_assets(&vec![]),
        Err(AssetMissingError { path: "bg.mp4".to_owned() })
    );
    assert_eq!(
        project.check_assets(&paths(&["bg.mp4", "images/a.png", "images/b.png", "bgm.mp3"])),
        Err(AssetMissingError { path: "audio/a.mp3".to_owned() })
    );
    assert_eq!(
        project.check_assets(&paths(&[
            "bg.mp4",
            "images/a.png",
            "audio/a.mp3",
            "images/b.png",
            "audio/b.mp3"
        ])),
        Err(AssetMissingError { path: "bgm.mp3".to_owned() })
    );
    assert_eq!(project.check_assets(&project.assets()), Ok(()));
}
