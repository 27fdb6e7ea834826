use redtake::subreddit::{
    fetch, plan_fetch, threads, CommentData, FetchError, FetchTarget, RedditThread,
    RedditThreadComment, ThreadData,
};

fn listed(id: &str, stickied: bool) -> ThreadData {
    ThreadData {
        stickied,
        id: id.to_owned(),
        over_18: false,
        permalink: format!("/r/rust/comments/{}/title/", id),
        selftext: "text".to_owned(),
        title: "Title".to_owned(),
    }
}

fn item(kind: &str, body: &str, id: &str, stickied: bool) -> CommentData {
    CommentData {
        kind: kind.to_owned(),
        body: body.to_owned(),
        id: id.to_owned(),
        permalink: format!("/r/rust/comments/abc/title/{}/", id),
        stickied,
    }
}

#[test]
fn pages_are_on_the_site() {
    let thread = RedditThread::new(&listed("abc", false)).unwrap();
    assert_eq!(thread.url(), "https://reddit.com/r/rust/comments/abc/title/");
    assert_eq!(
        thread.comments_url(),
        "https://reddit.com/r/rust/comments/abc/title/.json?depth=0"
    );
    let comment = RedditThreadComment {
        body: "hi".to_owned(),
        id: "k1".to_owned(),
        permalink: "/r/rust/comments/abc/title/k1/".to_owned(),
    };
    assert_eq!(comment.url(), "https://reddit.com/r/rust/comments/abc/title/k1/");
    assert_eq!(comment.css_selector(), "div.t1_k1:nth-child(2)");
}

#[test]
fn a_pinned_thread_is_passed_over() {
    assert_eq!(RedditThread::new(&listed("abc", true)), None);
    let data = ThreadData {
        stickied: false,
        id: "xyz".to_owned(),
        over_18: true,
        permalink: "/r/rust/comments/xyz/t/".to_owned(),
        selftext: "body".to_owned(),
        title: "A title".to_owned(),
    };
    assert_eq!(
        RedditThread::new(&data),
        Some(RedditThread {
            id: "xyz".to_owned(),
            over_18: true,
            permalink: "/r/rust/comments/xyz/t/".to_owned(),
            selftext: "body".to_owned(),
            title: "A title".to_owned(),
        })
    );
}

#[test]
fn listed_threads_keep_their_order() {
    let children =
        vec![listed("a", true), listed("b", false), listed("c", true), listed("d", false)];
    let found = threads(&children);
    assert_eq!(found.iter().map(|t| t.id.as_str()).collect::<Vec<_>>(), vec!["b", "d"]);
    assert_eq!(threads(&vec![]), vec![]);
}

#[test]
fn only_readable_comments_are_kept() {
    let thread = RedditThread::new(&listed("abc", false)).unwrap();
    let children = vec![
        item("t1", "first", "k1", false),
        item("more", "", "k2", false),
        item("t1", "pinned", "k3", true),
        item("t1", "it was [removed] here", "k4", false),
        item("t1", "[deleted]", "k5", false),
        item("t1", "123456", "k6", false),
        item("t1", "12345", "k7", false),
        item("t1", "\u{e9}\u{e9}\u{e9}", "k8", false),
        item("t1", "\u{e9}\u{e9}", "k9", false),
    ];
    let kept = thread.comments(&children, 5);
    assert_eq!(kept.iter().map(|c| c.id.as_str()).collect::<Vec<_>>(), vec!["k1", "k7", "k9"]);
    assert_eq!(
        kept[0],
        RedditThreadComment {
            body: "first".to_owned(),
            id: "k1".to_owned(),
            permalink: "/r/rust/comments/abc/title/k1/".to_owned(),
        }
    );
    assert_eq!(thread.comments(&children, 0), vec![]);
}

#[test]
fn a_link_to_a_thread_asks_for_the_thread() {
    assert_eq!(
        fetch("https://www.reddit.com/r/rust/comments/abc123/some_title/", 25),
        Ok(FetchTarget::Thread {
            url: "https://reddit.com/r/rust/comments/abc123/.json?limit=0&depth=0".to_owned()
        })
    );
}

#[test]
fn a_link_to_a_subreddit_asks_for_its_hot_threads() {
    assert_eq!(
        fetch("r/AskReddit", 25),
        Ok(FetchTarget::Hot { url: "https://reddit.com/r/AskReddit/hot.json?limit=25".to_owned() })
    );
    assert_eq!(
        fetch("https://reddit.com/r/rust/", 3),
        Ok(FetchTarget::Hot { url: "https://reddit.com/r/rust/hot.json?limit=3".to_owned() })
    );
}

#[test]
fn a_link_without_a_subreddit_is_refused() {
    assert_eq!(fetch("https://example.com/", 25), Err(FetchError::NoSubreddit));
    assert_eq!(fetch("", 25), Err(FetchError::NoSubreddit));
}

#[test]
fn what_was_found_decides_what_is_asked() {
    assert_eq!(
        plan_fetch("r/rust", Some("comments/abc"), 7),
        FetchTarget::Thread {
            url: "https://reddit.com/r/rust/comments/abc/.json?limit=0&depth=0".to_owned()
        }
    );
    assert_eq!(
        plan_fetch("r/rust", None, 65535),
        FetchTarget::Hot { url: "https://reddit.com/r/rust/hot.json?limit=65535".to_owned() }
    );
}
