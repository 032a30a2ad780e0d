//! Assembly of a short promotional clip: an input video with a timed card
//! overlay, a sequence of narration clips mixed in, and burnt-in subtitles.
//!
//! The media work itself is done by an external probe and transform tool;
//! this library decides what to ask of it, in which order, and what the
//! answers mean.
mod text;
pub mod timing;
pub mod error;
pub mod frames;
pub mod probe;
pub mod playlist;
pub mod commands;
pub mod pipeline;
pub mod editor;
