use redtake::layout::{
    comment_audio, comment_image, comment_record, narration, project_directory,
};
use redtake::subreddit::RedditThread;

fn thread(over_18: bool) -> RedditThread {
    RedditThread {
        id: "abc".to_owned(),
        over_18,
        permalink: "/r/rust/comments/abc/t/".to_owned(),
        selftext: "Tell me.".to_owned(),
        title: "What is this?".to_owned(),
    }
}

#[test]
fn project_directories_are_named_after_the_thread() {
    assert_eq!(project_directory(&thread(false), None, true), "Project abc (What is this?)");
    assert_eq!(
        project_directory(&thread(false), Some(3), true),
        "Project abc Hot 3 (What is this?)"
    );
    assert_eq!(project_directory(&thread(false), None, false), "Project abc");
    assert_eq!(project_directory(&thread(false), Some(12), false), "Project abc Hot 12");
}

#[test]
fn the_title_is_read_with_the_text_below_it() {
    assert_eq!(narration(&thread(false)), "What is this?. Tell me.");
}

#[test]
fn the_files_of_a_comment_are_numbered() {
    assert_eq!(comment_image(1), "images/comment_1.png");
    assert_eq!(comment_audio(12), "audio/comment_12.mp3");
    assert_eq!(comment_record(3), "data/comment_3.json");
}
