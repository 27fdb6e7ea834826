use redtake::args::{progress_steps, Args, Commands, New, Render, RenderAction, Tts};
use redtake::decimal::Decimal;
use redtake::subreddit::RedditThread;
use redtake::tts::Voices;

fn thread(over_18: bool) -> RedditThread {
    RedditThread {
        id: "abc".to_owned(),
        over_18,
        permalink: "/r/rust/comments/abc/t/".to_owned(),
        selftext: String::new(),
        title: "What is this?".to_owned(),
    }
}

#[test]
fn new_projects_have_the_usual_limits() {
    let options = New::new("r/AskReddit");
    assert_eq!(
        options,
        New {
            input: "r/AskReddit".to_owned(),
            light: false,
            limit: 25,
            max_duration: Decimal { units: 50_000_000 },
            max_length: 500,
            nsfw: false,
            tts_proxy: false,
            skip: false,
            voice: Voices::EnUSTiktokFemale2,
        }
    );
}

#[test]
fn speech_alone_has_the_usual_voice() {
    assert_eq!(
        Tts::new("Hello", "hello.mp3"),
        Tts {
            text: "Hello".to_owned(),
            output: "hello.mp3".to_owned(),
            duration: false,
            voice: Voices::EnUSTiktokFemale2,
            tts_proxy: false,
        }
    );
}

#[test]
fn commands_carry_their_options() {
    let args = Args { command: Commands::Render(Render { command: true }) };
    assert_eq!(args.command, Commands::Render(Render { command: true }));
    assert_ne!(args.command, Commands::Voices);
}

#[test]
fn threads_for_adults_need_permission() {
    let mut options = New::new("r/x");
    assert!(options.admits(&thread(false)));
    assert!(!options.admits(&thread(true)));
    options.nsfw = true;
    assert!(options.admits(&thread(false)));
    assert!(options.admits(&thread(true)));
}

#[test]
fn a_video_is_full_beyond_the_longest_duration() {
    let options = New::new("r/x");
    assert!(!options.is_full(49_999_999));
    assert!(!options.is_full(50_000_000));
    assert!(options.is_full(50_000_001));
    assert!(options.has_room(40_000_000, Decimal { units: 10_000_000 }));
    assert!(!options.has_room(40_000_000, Decimal { units: 10_000_001 }));
    assert!(!options.has_room(50_000_001, Decimal { units: 0 }));
    assert!(!options.has_room(u128::MAX, Decimal { units: u64::MAX }));
}

#[test]
fn the_progress_display_counts_thousandths() {
    assert_eq!(New::new("r/x").progress_total(), 50_000);
    assert_eq!(progress_steps(Decimal { units: 3_000_000 }), 1_500);
    assert_eq!(progress_steps(Decimal { units: 1_999 }), 0);
}

#[test]
fn rendering_needs_the_configuration() {
    assert_eq!(Render { command: true }.action(false), None);
    assert_eq!(Render { command: false }.action(false), None);
    assert_eq!(Render { command: true }.action(true), Some(RenderAction::Show));
    assert_eq!(Render { command: false }.action(true), Some(RenderAction::Run));
}
