//! The layout of a project directory: what the directory is called and
//! where the assets of the title and of each comment lie in it.

use vstd::prelude::*;
use vstd::string::StringExecFns;
use crate::subreddit::{RedditThread, RedditThreadView};
use crate::text::{nat_text, push_nat};

verus! {

/// The name of the directory of the project made from `thread`: with the
/// rank among the hot threads where more than one thread is made into a
/// project, and with the title unless it is left out.
pub open spec fn directory_name(thread: RedditThreadView, rank: Option<usize>, titled: bool)
    -> Seq<char> {
    let stem = "Project "@ + thread.id + (match rank {
        Some(rank) => " Hot "@ + nat_text(rank as nat),
        None => Seq::empty(),
    });
    if titled {
        stem + " ("@ + thread.title + ")"@
    } else {
        stem
    }
}

/// The path of the file of comment `number` in the directory `folder`,
/// with the ending `ending`.
pub open spec fn comment_file(folder: Seq<char>, number: usize, ending: Seq<char>) -> Seq<char> {
    folder + "/comment_"@ + nat_text(number as nat) + ending
}

/// The name of the directory of the project made from `thread`. `rank` is
/// the place of the thread among those made into projects, from one, where
/// there is more than one; `titled` says whether the title is part of the
/// name.
pub fn project_directory(thread: &RedditThread, rank: Option<usize>, titled: bool) -> (name: String)
    ensures
        name@ == directory_name(thread@, rank, titled),
{
    let mut name = String::from_str("Project ");
    name.append(thread.id.as_str());
    match rank {
        Some(rank) => {
            name.append(" Hot ");
            push_nat(&mut name, rank as u128);
        },
        None => {
            assert(name@ + Seq::<char>::empty() =~= name@);
        },
    }
    if titled {
        name.append(" (");
        name.append(thread.title.as_str());
        name.append(")");
    }
    name
}

/// What is read out for the title of `thread`: the title, a full stop and
/// the text below the title.
pub fn narration(thread: &RedditThread) -> (text: String)
    ensures
        text@ == thread@.title + ". "@ + thread@.selftext,
{
    let mut text = thread.title.clone();
    text.append(". ");
    text.append(thread.selftext.as_str());
    text
}

/// The path of the file of comment `number` in `folder`.
fn comment_path(folder: &str, number: usize, ending: &str) -> (path: String)
    ensures
        path@ == comment_file(folder@, number, ending@),
{
    let mut path = String::from_str(folder);
    path.append("/comment_");
    push_nat(&mut path, number as u128);
    path.append(ending);
    path
}

/// The path of the screenshot of comment `number`, from the project
/// directory.
pub fn comment_image(number: usize) -> (path: String)
    ensures
        path@ == comment_file("images"@, number, ".png"@),
{
    comment_path("images", number, ".png")
}

/// The path of the speech clip of comment `number`, from the project
/// directory.
pub fn comment_audio(number: usize) -> (path: String)
    ensures
        path@ == comment_file("audio"@, number, ".mp3"@),
{
    comment_path("audio", number, ".mp3")
}

/// The path of the record of comment `number`, from the project directory.
pub fn comment_record(number: usize) -> (path: String)
    ensures
        path@ == comment_file("data"@, number, ".json"@),
{
    comment_path("data", number, ".json")
}

} // verus!
