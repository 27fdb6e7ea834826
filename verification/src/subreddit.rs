//! Threads and comments of the content source: which of the listed items
//! become part of a video, where their pages are, and what to request for
//! a link that the user gave.

use vstd::prelude::*;
use vstd::string::StringExecFns;
use vstd::utf8::encode_utf8;
use crate::text::{contains_text, nat_text, occurs_in, push_nat};

verus! {

/// The error type of the pattern compiler of the `regex` crate.
#[verifier::external_type_specification]
#[verifier::external_body]
pub struct ExRegexError(regex::Error);

/// One comment of a thread.
#[derive(Debug, Clone, PartialEq, Eq)]
pub struct RedditThreadComment {
    /// The text of the comment.
    pub body: String,
    /// The identifier of the comment.
    pub id: String,
    /// The path of the comment's page on the site.
    pub permalink: String,
}

/// Mathematical view of [`RedditThreadComment`].
pub struct RedditThreadCommentView {
    pub body: Seq<char>,
    pub id: Seq<char>,
    pub permalink: Seq<char>,
}

impl View for RedditThreadComment {
    type V = RedditThreadCommentView;

    open spec fn view(&self) -> RedditThreadCommentView {
        RedditThreadCommentView { body: self.body@, id: self.id@, permalink: self.permalink@ }
    }
}

/// One thread.
#[derive(Debug, Clone, PartialEq, Eq)]
pub struct RedditThread {
    /// The identifier of the thread.
    pub id: String,
    /// Whether the thread is marked as for adults only.
    pub over_18: bool,
    /// The path of the thread's page on the site.
    pub permalink: String,
    /// The text below the title.
    pub selftext: String,
    /// The title.
    pub title: String,
}

/// Mathematical view of [`RedditThread`].
pub struct RedditThreadView {
    pub id: Seq<char>,
    pub over_18: bool,
    pub permalink: Seq<char>,
    pub selftext: Seq<char>,
    pub title: Seq<char>,
}

impl View for RedditThread {
    type V = RedditThreadView;

    open spec fn view(&self) -> RedditThreadView {
        RedditThreadView {
            id: self.id@,
            over_18: self.over_18,
            permalink: self.permalink@,
            selftext: self.selftext@,
            title: self.title@,
        }
    }
}

/// What a listing says of one thread.
#[derive(Debug, Clone, PartialEq, Eq)]
pub struct ThreadData {
    /// Whether the thread is pinned to the top of its listing.
    pub stickied: bool,
    pub id: String,
    pub over_18: bool,
    pub permalink: String,
    pub selftext: String,
    pub title: String,
}

/// What a listing says of one item below a thread.
#[derive(Debug, Clone, PartialEq, Eq)]
pub struct CommentData {
    /// The kind of the item; `more` stands for comments that are not listed.
    pub kind: String,
    pub body: String,
    pub id: String,
    pub permalink: String,
    /// Whether the comment is pinned to the top.
    pub stickied: bool,
}

/// What to request for a link.
#[derive(Debug, Clone, PartialEq, Eq)]
pub enum FetchTarget {
    /// The listing of one thread, at `url`.
    Thread { url: String },
    /// The hot threads of a subreddit, at `url`.
    Hot { url: String },
}

/// Mathematical view of [`FetchTarget`].
pub enum FetchTargetView {
    Thread { url: Seq<char> },
    Hot { url: Seq<char> },
}

impl View for FetchTarget {
    type V = FetchTargetView;

    open spec fn view(&self) -> FetchTargetView {
        match *self {
            FetchTarget::Thread { url } => FetchTargetView::Thread { url: url@ },
            FetchTarget::Hot { url } => FetchTargetView::Hot { url: url@ },
        }
    }
}

/// Why nothing can be requested for a link.
#[derive(Debug, Clone, Copy, PartialEq, Eq)]
pub enum FetchError {
    /// The link names no subreddit.
    NoSubreddit,
    /// A search pattern was refused by the pattern compiler.
    Pattern,
}

/// The thread that a listing entry describes.
pub open spec fn thread_of(data: ThreadData) -> RedditThreadView {
    RedditThreadView {
        id: data.id@,
        over_18: data.over_18,
        permalink: data.permalink@,
        selftext: data.selftext@,
        title: data.title@,
    }
}

/// The threads of a listing that are not pinned, in listing order.
pub open spec fn threads_of(children: Seq<ThreadData>) -> Seq<RedditThreadView>
    decreases children.len(),
{
    if children.len() == 0 {
        Seq::empty()
    } else if children.last().stickied {
        threads_of(children.drop_last())
    } else {
        threads_of(children.drop_last()).push(thread_of(children.last()))
    }
}

/// The item is a comment to read out: of no kind `more`, not pinned, neither removed
/// nor deleted, and no longer than `max_length` bytes.
pub open spec fn is_readable(item: CommentData, max_length: usize) -> bool {
    &&& item.kind@ != "more"@
    &&& !item.stickied
    &&& !occurs_in("[removed]"@, item.body@)
    &&& !occurs_in("[deleted]"@, item.body@)
    &&& encode_utf8(item.body@).len() <= max_length
}

/// The comment that a listing item describes.
pub open spec fn comment_of(item: CommentData) -> RedditThreadCommentView {
    RedditThreadCommentView { body: item.body@, id: item.id@, permalink: item.permalink@ }
}

/// The readable comments of a listing, in listing order.
pub open spec fn comments_of(children: Seq<CommentData>, max_length: usize) -> Seq<
    RedditThreadCommentView,
>
    decreases children.len(),
{
    if children.len() == 0 {
        Seq::empty()
    } else if is_readable(children.last(), max_length) {
        comments_of(children.drop_last(), max_length).push(comment_of(children.last()))
    } else {
        comments_of(children.drop_last(), max_length)
    }
}

/// The views of `threads`, in order.
pub open spec fn thread_views(threads: Seq<RedditThread>) -> Seq<RedditThreadView> {
    threads.map_values(|t: RedditThread| t@)
}

/// The views of `comments`, in order.
pub open spec fn comment_views(comments: Seq<RedditThreadComment>) -> Seq<RedditThreadCommentView> {
    comments.map_values(|c: RedditThreadComment| c@)
}

/// The address of the page at `permalink`.
pub open spec fn page_url(permalink: Seq<char>) -> Seq<char> {
    "https://reddit.com"@ + permalink
}

/// What the search for `pattern` in `text` finds: nothing at all where
/// `pattern` is no pattern; else the text of the first match, if there is
/// a match.
pub uninterp spec fn pattern_match(pattern: Seq<char>, text: Seq<char>) -> Option<Option<Seq<char>>>;

/// The view of an optional string.
pub open spec fn optional_text(s: Option<String>) -> Option<Seq<char>> {
    match s {
        Some(s) => Some(s@),
        None => None,
    }
}

/// What to request for a link in which the subreddit `subreddit` and
/// perhaps the thread `thread` were found.
pub open spec fn target_for(subreddit: Seq<char>, thread: Option<Seq<char>>, limit: u16)
    -> FetchTargetView {
    match thread {
        Some(thread) => FetchTargetView::Thread {
            url: "https://reddit.com/"@ + subreddit + "/"@ + thread + "/.json?limit=0&depth=0"@,
        },
        None => FetchTargetView::Hot {
            url: "https://reddit.com/"@ + subreddit + "/hot.json?limit="@ + nat_text(limit as nat),
        },
    }
}

/// What [`fetch`] answers for a link in which the two searches found
/// `subreddit` and `thread`.
pub open spec fn fetch_outcome(
    subreddit: Option<Option<Seq<char>>>,
    thread: Option<Option<Seq<char>>>,
    limit: u16,
) -> Result<FetchTargetView, FetchError> {
    match subreddit {
        None => Err(FetchError::Pattern),
        Some(None) => Err(FetchError::NoSubreddit),
        Some(Some(subreddit)) => match thread {
            None => Err(FetchError::Pattern),
            Some(thread) => Ok(target_for(subreddit, thread, limit)),
        },
    }
}

/// Compiles `pattern` with `regex::Regex::new` and searches `text` for its
/// first match with `Regex::find`. The contract only gives the outcome its
/// name: an error of the compiler where `pattern` is no pattern, else the
/// matched text, if any.
#[verifier::external_body]
fn search(pattern: &str, text: &str) -> (r: Result<Option<String>, regex::Error>)
    ensures
        pattern_match(pattern@, text@) == (match r {
            Ok(found) => Some(optional_text(found)),
            Err(_) => None,
        }),
{
    let compiled = regex::Regex::new(pattern)?;
    Ok(compiled.find(text).map(|m| m.as_str().to_owned()))
}

impl RedditThreadComment {
    /// The address of the comment's page.
    pub fn url(&self) -> (url: String)
        ensures
            url@ == page_url(self@.permalink),
    {
        let mut url = String::from_str("https://reddit.com");
        url.append(self.permalink.as_str());
        url
    }

    /// The selector of the comment's box on its page.
    pub fn css_selector(&self) -> (selector: String)
        ensures
            selector@ == "div.t1_"@ + self@.id + ":nth-child(2)"@,
    {
        let mut selector = String::from_str("div.t1_");
        selector.append(self.id.as_str());
        selector.append(":nth-child(2)");
        selector
    }
}

impl RedditThread {
    /// The thread that a listing entry describes; none for a pinned one.
    pub fn new(child: &ThreadData) -> (thread: Option<RedditThread>)
        ensures
            thread is None <==> child.stickied,
            thread matches Some(t) ==> t@ == thread_of(*child),
    {
        if child.stickied {
            return None;
        }
        Some(
            RedditThread {
                id: child.id.clone(),
                over_18: child.over_18,
                permalink: child.permalink.clone(),
                selftext: child.selftext.clone(),
                title: child.title.clone(),
            },
        )
    }

    /// The address of the thread's page.
    pub fn url(&self) -> (url: String)
        ensures
            url@ == page_url(self@.permalink),
    {
        let mut url = String::from_str("https://reddit.com");
        url.append(self.permalink.as_str());
        url
    }

    /// The address of the listing of the thread's top-level comments.
    pub fn comments_url(&self) -> (url: String)
        ensures
            url@ == page_url(self@.permalink) + ".json?depth=0"@,
    {
        let mut url = self.url();
        url.append(".json?depth=0");
        url
    }

    /// The comments of the thread that are read out, picked from the items
    /// `children` of its comment listing: in listing order, without items of the kind `more`,
    /// pinned, removed and deleted comments and those longer than
    /// `max_length` bytes.
    pub fn comments(&self, children: &Vec<CommentData>, max_length: usize) -> (comments: Vec<
        RedditThreadComment,
    >)
        ensures
            comment_views(comments@) == comments_of(children@, max_length),
    {
        let mut comments: Vec<RedditThreadComment> = Vec::new();
        let mut i: usize = 0;
        proof {
            assert(children@.take(0) =~= Seq::empty());
            assert(comment_views(comments@) =~= Seq::empty());
        }
        while i < children.len()
            invariant
                i <= children.len(),
                comment_views(comments@) == comments_of(children@.take(i as int), max_length),
            decreases children.len() - i,
        {
            let item = &children[i];
            proof {
                let next = children@.take(i + 1);
                assert(next.drop_last() =~= children@.take(i as int));
                assert(next.last() == *item);
            }
            let ghost before = comment_views(comments@);
            let more = String::from_str("more");
            let unlisted = item.kind == more;
            let gone = contains_text(item.body.as_str(), "[removed]") || contains_text(
                item.body.as_str(),
                "[deleted]",
            );
            let fits = item.body.as_str().as_bytes().len() <= max_length;
            if !unlisted && !item.stickied && !gone && fits {
                comments.push(
                    RedditThreadComment {
                        body: item.body.clone(),
                        id: item.id.clone(),
                        permalink: item.permalink.clone(),
                    },
                );
                assert(comment_views(comments@) =~= before.push(comment_of(*item)));
            }
            i += 1;
        }
        assert(children@.take(i as int) =~= children@);
        comments
    }
}

/// The threads of a listing that are not pinned, in listing order.
pub fn threads(children: &Vec<ThreadData>) -> (threads: Vec<RedditThread>)
    ensures
        thread_views(threads@) == threads_of(children@),
{
    let mut threads: Vec<RedditThread> = Vec::new();
    let mut i: usize = 0;
    proof {
        assert(children@.take(0) =~= Seq::empty());
        assert(thread_views(threads@) =~= Seq::empty());
    }
    while i < children.len()
        invariant
            i <= children.len(),
            thread_views(threads@) == threads_of(children@.take(i as int)),
        decreases children.len() - i,
    {
        proof {
            let next = children@.take(i + 1);
            assert(next.drop_last() =~= children@.take(i as int));
            assert(next.last() == children@[i as int]);
        }
        let ghost before = thread_views(threads@);
        match RedditThread::new(&children[i]) {
            Some(thread) => {
                threads.push(thread);
                assert(thread_views(threads@) =~= before.push(thread_of(children@[i as int])));
            },
            None => {},
        }
        i += 1;
    }
    assert(children@.take(i as int) =~= children@);
    threads
}

/// What to request for a link in which the subreddit `subreddit` and
/// perhaps the thread `thread` were found: the listing of the thread, or
/// the first `limit` hot threads of the subreddit.
pub fn plan_fetch(subreddit: &str, thread: Option<&str>, limit: u16) -> (target: FetchTarget)
    ensures
        target@ == target_for(
            subreddit@,
            match thread {
                Some(t) => Some(t@),
                None => None,
            },
            limit,
        ),
{
    let mut url = String::from_str("https://reddit.com/");
    url.append(subreddit);
    match thread {
        Some(thread) => {
            url.append("/");
            url.append(thread);
            url.append("/.json?limit=0&depth=0");
            FetchTarget::Thread { url }
        },
        None => {
            url.append("/hot.json?limit=");
            push_nat(&mut url, limit as u128);
            FetchTarget::Hot { url }
        },
    }
}

/// What to request for the link `url`: the thread that it names, or the
/// first `limit` hot threads of the subreddit that it names. The subreddit
/// is the first match of `r/\w*` in the link, the thread the first match
/// of `comments/\w*`.
pub fn fetch(url: &str, limit: u16) -> (r: Result<FetchTarget, FetchError>)
    ensures
        (match r {
            Ok(target) => Ok(target@),
            Err(e) => Err(e),
        }) == fetch_outcome(
            pattern_match("r/\\w*"@, url@),
            pattern_match("comments/\\w*"@, url@),
            limit,
        ),
{
    let subreddit = match search("r/\\w*", url) {
        Ok(Some(found)) => found,
        Ok(None) => {
            return Err(FetchError::NoSubreddit);
        },
        Err(_) => {
            return Err(FetchError::Pattern);
        },
    };
    let thread = match search("comments/\\w*", url) {
        Ok(found) => found,
        Err(_) => {
            return Err(FetchError::Pattern);
        },
    };
    match thread {
        Some(thread) => Ok(plan_fetch(subreddit.as_str(), Some(thread.as_str()), limit)),
        None => Ok(plan_fetch(subreddit.as_str(), None, limit)),
    }
}

} // verus!
