//! Assembles short vertical videos from timed image and speech segments:
//! the project model, the stream index plan, the filter graph and the
//! argument list handed to the encoder.

pub mod args;
pub mod assets;
pub mod command;
pub mod config;
pub mod decimal;
pub mod document;
pub mod graph;
pub mod layout;
pub mod output;
pub mod plan;
pub mod probe;
pub mod subreddit;
pub mod text;
pub mod tts;
pub mod video;
