//! The editor: a configured target duration, from which runs are started.
use vstd::prelude::*;
use crate::pipeline::{wf, Action, Request, Run, Stage};
use crate::text::texts;
use crate::timing::{target_duration, target_spec, MIN_TARGET_DURATION};

verus! {

/// The playlist path that a run uses unless told otherwise.
pub const PLAYLIST_PATH: &'static str = "concat_list.txt";

/// The output path that a run uses unless told otherwise.
pub const OUTPUT_PATH: &'static str = "output.mp4";

pub struct VideoEditor {
    /// The target duration, in microseconds.
    pub duration: u64,
}

impl VideoEditor {
    /// An editor whose target duration is `duration` microseconds, one
    /// minute where none is given, and never less than one second.
    pub fn new(duration: Option<i64>) -> (r: VideoEditor)
        ensures
            r.duration as nat == target_spec(duration),
    {
        VideoEditor { duration: target_duration(duration) }
    }

    /// Starts a run that writes its playlist and output at the given paths.
    pub fn start_run(
        &self,
        end_time: i64,
        input_video: String,
        card: String,
        ass_file: String,
        playlist_path: String,
        output_path: String,
    ) -> (r: (Run, Action))
        requires
            self.duration >= MIN_TARGET_DURATION,
        ensures
            wf(r.0),
            r.0.stage == Stage::Validate,
            r.0.target == self.duration,
            r.0.request.end_time == end_time,
            r.0.request.input_video == input_video,
            r.0.request.card == card,
            r.0.request.subtitles == ass_file,
            r.0.playlist_path == playlist_path,
            r.0.output_path == output_path,
            r.0.outcome is None,
            r.1 matches Action::CheckExist(v) && texts(v@) == seq![
                input_video@,
                card@,
                ass_file@,
            ],
    {
        let request = Request { end_time, input_video, card, subtitles: ass_file };
        Run::start(request, self.duration, playlist_path, output_path)
    }

    /// Starts a run that writes `concat_list.txt` and `output.mp4` in the
    /// working directory.
    pub fn generate_video(&self, end_time: i64, input_video: String, card: String, ass_file: String) -> (r: (
        Run,
        Action,
    ))
        requires
            self.duration >= MIN_TARGET_DURATION,
        ensures
            wf(r.0),
            r.0.stage == Stage::Validate,
            r.0.target == self.duration,
            r.0.request.end_time == end_time,
            r.0.request.input_video == input_video,
            r.0.request.card == card,
            r.0.request.subtitles == ass_file,
            r.0.playlist_path@ == PLAYLIST_PATH@,
            r.0.output_path@ == OUTPUT_PATH@,
            r.0.outcome is None,
            r.1 matches Action::CheckExist(v) && texts(v@) == seq![
                input_video@,
                card@,
                ass_file@,
            ],
    {
        self.start_run(
            end_time,
            input_video,
            card,
            ass_file,
            String::from_str(PLAYLIST_PATH),
            String::from_str(OUTPUT_PATH),
        )
    }
}

} // verus!
