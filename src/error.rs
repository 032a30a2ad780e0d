//! How a generation run can fail.
use vstd::prelude::*;

verus! {

/// Which of the files that a run reads a path stands for.
#[derive(Debug, Clone, Copy, PartialEq, Eq)]
pub enum FileRole {
    InputVideo,
    CardImage,
    Subtitles,
    Clip,
    /// The card stage's output.
    Overlay,
}

/// A numeric argument or derived value out of its range.
#[derive(Debug, Clone, Copy, PartialEq, Eq)]
pub enum ValueProblem {
    /// The requested end time is zero or negative.
    EndTimeNotPositive,
    /// The least of end time, target and input duration is zero.
    DurationNotPositive,
    /// The input video is shorter than the shortest card lead-in.
    InputTooShort,
}

/// An external tool that did not do what was asked of it.
#[derive(Debug, Clone, PartialEq, Eq)]
pub enum ToolProblem {
    /// The tool could not be started, or the outside step failed; the text
    /// says why.
    Launch(String),
    /// The probe exited unsuccessfully; the text is what it reported.
    ProbeExit(String),
    /// The transform exited unsuccessfully.
    TransformExit,
    /// The probe's output is not valid JSON.
    Unparseable,
    /// The transform reported success but left no output, or an empty one.
    EmptyOutput,
}

/// A probe answer that does not hold the expected field.
#[derive(Debug, Clone, Copy, PartialEq, Eq)]
pub enum DataProblem {
    /// There is no `format.duration` string.
    MissingDuration,
    /// The duration is not a decimal number of seconds.
    BadDuration,
}

#[derive(Debug, Clone, PartialEq, Eq)]
pub enum EditorError {
    /// A file that the run needs does not exist.
    NotFound(FileRole, String),
    Value(ValueProblem),
    /// No audio clip matched.
    EmptySet,
    ExternalTool(ToolProblem),
    Data(DataProblem),
    /// A local file could not be created or written; the text says why.
    Io(String),
}

} // verus!
