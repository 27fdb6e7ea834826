//! What the user asks for: the commands and their options, with the
//! decisions that depend on the options alone.

use vstd::prelude::*;
use crate::decimal::Decimal;
use crate::subreddit::RedditThread;
use crate::tts::Voices;

verus! {

/// The options of one run.
#[derive(Debug, Clone, PartialEq, Eq)]
pub struct Args {
    pub command: Commands,
}

/// What a run does.
#[derive(Debug, Clone, PartialEq, Eq)]
pub enum Commands {
    /// Creates new projects and fetches their assets.
    New(New),
    /// Renders the project in the working directory.
    Render(Render),
    /// Synthesizes one text.
    Tts(Tts),
    /// Lists the voices.
    Voices,
}

/// Options for creating projects.
#[derive(Debug, Clone, PartialEq, Eq)]
pub struct New {
    /// A link to a subreddit or to one of its threads.
    pub input: String,
    /// Take screenshots in the light theme.
    pub light: bool,
    /// Most hot threads to fetch from a subreddit.
    pub limit: u16,
    /// Longest video, in seconds.
    pub max_duration: Decimal,
    /// Longest comment, in bytes.
    pub max_length: usize,
    /// Allow threads that are marked as for adults only.
    pub nsfw: bool,
    /// Reach the speech services through the proxy.
    pub tts_proxy: bool,
    /// Leave projects that exist as they are.
    pub skip: bool,
    /// The voice that reads.
    pub voice: Voices,
}

/// Options for rendering.
#[derive(Debug, Clone, Copy, PartialEq, Eq)]
pub struct Render {
    /// Show the encoder command instead of running it.
    pub command: bool,
}

/// What a rendering run does.
#[derive(Debug, Clone, Copy, PartialEq, Eq)]
pub enum RenderAction {
    /// Prints the encoder command.
    Show,
    /// Runs the encoder.
    Run,
}

/// Options for synthesizing one text.
#[derive(Debug, Clone, PartialEq, Eq)]
pub struct Tts {
    /// The text to speak.
    pub text: String,
    /// Where the audio goes.
    pub output: String,
    /// Print the duration of the audio.
    pub duration: bool,
    /// The voice that reads.
    pub voice: Voices,
    /// Reach the speech services through the proxy.
    pub tts_proxy: bool,
}

impl New {
    /// The options for `input` where nothing else is asked for: 25 threads
    /// at most, videos of 50 seconds and comments of 500 bytes at most, the
    /// dark theme, no threads for adults, no proxy, existing projects
    /// replaced, read by `EnUSTiktokFemale2`.
    pub fn new(input: &str) -> (options: New)
        ensures
            options.input@ == input@,
            !options.light,
            options.limit == 25,
            options.max_duration.units == 50_000_000,
            options.max_length == 500,
            !options.nsfw,
            !options.tts_proxy,
            !options.skip,
            options.voice == Voices::EnUSTiktokFemale2,
    {
        New {
            input: String::from_str(input),
            light: false,
            limit: 25,
            max_duration: Decimal { units: 50_000_000 },
            max_length: 500,
            nsfw: false,
            tts_proxy: false,
            skip: false,
            voice: Voices::EnUSTiktokFemale2,
        }
    }

    /// Whether a project is made from `thread`: always, unless it is for
    /// adults only and such threads are not allowed.
    pub fn admits(&self, thread: &RedditThread) -> (yes: bool)
        ensures
            yes == (!thread.over_18 || self.nsfw),
    {
        !thread.over_18 || self.nsfw
    }

    /// Whether a timeline of `planned` millionths of a second is longer
    /// than the longest video allowed, so that nothing more is added.
    pub fn is_full(&self, planned: u128) -> (yes: bool)
        ensures
            yes == (planned > self.max_duration.units),
    {
        planned > self.max_duration.units as u128
    }

    /// Length of the progress display of one project: the thousandths of a
    /// second in the longest video allowed.
    pub fn progress_total(&self) -> (steps: u64)
        ensures
            steps == self.max_duration.units / 1_000,
    {
        self.max_duration.units / 1_000
    }

    /// Whether a segment of `next` seconds can follow a timeline of
    /// `planned` millionths of a second without the video becoming longer
    /// than allowed.
    pub fn has_room(&self, planned: u128, next: Decimal) -> (yes: bool)
        ensures
            yes == (planned + next.units <= self.max_duration.units),
    {
        planned <= self.max_duration.units as u128 && next.units as u128
            <= self.max_duration.units as u128 - planned
    }
}

impl Render {
    /// What the run does, given whether the project configuration was
    /// found in the working directory: nothing without it, else what the
    /// options ask for.
    pub fn action(&self, configuration_found: bool) -> (action: Option<RenderAction>)
        ensures
            action == (if !configuration_found {
                None
            } else if self.command {
                Some(RenderAction::Show)
            } else {
                Some(RenderAction::Run)
            }),
    {
        if !configuration_found {
            None
        } else if self.command {
            Some(RenderAction::Show)
        } else {
            Some(RenderAction::Run)
        }
    }
}

impl Tts {
    /// The options for speaking `text` into `output` where nothing else is
    /// asked for: no duration printed, no proxy, read by
    /// `EnUSTiktokFemale2`.
    pub fn new(text: &str, output: &str) -> (options: Tts)
        ensures
            options.text@ == text@,
            options.output@ == output@,
            !options.duration,
            !options.tts_proxy,
            options.voice == Voices::EnUSTiktokFemale2,
    {
        Tts {
            text: String::from_str(text),
            output: String::from_str(output),
            duration: false,
            voice: Voices::EnUSTiktokFemale2,
            tts_proxy: false,
        }
    }
}

/// How far the progress display moves for each of the two steps, speech
/// and screenshot, of a segment of `duration` seconds: by half of its
/// thousandths of a second.
pub fn progress_steps(duration: Decimal) -> (steps: u64)
    ensures
        steps == duration.units / 2_000,
{
    duration.units / 2_000
}

} // verus!
