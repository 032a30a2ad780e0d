//! One generation run, as a state machine: each step takes the answer to the
//! last action and names the next one. Whoever drives it performs the
//! actions (file checks, tool runs, writes) and reports what happened.
use vstd::prelude::*;
use crate::commands::{final_args, final_args_spec, overlay_args, overlay_args_spec};
use crate::error::{EditorError, FileRole, ToolProblem, ValueProblem};
use crate::frames::{is_clip_order, resolve_clips};
use crate::playlist::{
    has_no_newline, lemma_playlist_round_trip, parse_spec, playlist_spec, playlist_text,
};
use crate::probe::{
    audio_from_output, audio_probe_args, audio_probe_spec, duration_from_output,
    duration_probe_args, duration_probe_spec, json_of, duration_outcome, audio_outcome,
    ProbeOutput,
};
use crate::text::texts;
use crate::timing::{effective_end, min3, MIN_LEAD_IN, MIN_TARGET_DURATION};

verus! {

/// What a caller asks for: the requested end time in microseconds, and the
/// three files to build from.
pub struct Request {
    pub end_time: i64,
    pub input_video: String,
    pub card: String,
    pub subtitles: String,
}

/// Where a run stands.
#[derive(Debug, Clone, Copy, PartialEq, Eq, Structural)]
pub enum Stage {
    /// Awaiting whether the input video, card and subtitles exist.
    Validate,
    /// Awaiting the clips found.
    ResolveFrames,
    /// Awaiting the probe of the input video's duration.
    ProbeInputDuration,
    /// Awaiting the probe of the first clip's duration.
    ProbeLeadInDuration,
    /// Awaiting whether the input video and card still exist.
    CheckOverlayInputs,
    /// Awaiting a fresh temporary path for the card stage's output.
    AllocateOverlay,
    /// Awaiting the card stage's transform.
    ComposeOverlay,
    /// Awaiting the size of the card stage's output.
    MeasureOverlay,
    /// Awaiting the probe of the card stage's output for audio.
    ProbeOverlayAudio,
    /// Awaiting the playlist's write.
    WritePlaylist,
    /// Awaiting whether the subtitles and the card stage's output still
    /// exist.
    CheckFinalInputs,
    /// Awaiting the final transform.
    ComposeFinal,
    /// Awaiting the removal of the temporary files.
    Cleanup,
    /// Finished; the outcome is set.
    Done,
}

/// What the driver is asked to do next.
pub enum Action {
    /// Report, for each path, whether it exists (`Event::Exists`).
    CheckExist(Vec<String>),
    /// List the clips in the clip directory (`Event::Clips`).
    ListClips,
    /// Run the probe with these arguments on `path` (`Event::Probed`), or
    /// report `Event::Missing` where `path` does not exist.
    Probe { path: String, args: Vec<String> },
    /// Allocate a fresh temporary path for a video (`Event::TempPath`).
    AllocateTemp,
    /// Run the transform with these arguments (`Event::Exited`).
    Transform(Vec<String>),
    /// Report the size of a file, none where it is missing (`Event::Size`).
    Measure(String),
    /// Write a text file (`Event::Written`).
    Write { path: String, text: String },
    /// Remove these files, ignoring failures (`Event::Removed`).
    Remove(Vec<String>),
    /// The run is over, with this outcome.
    Finish(Result<String, EditorError>),
}

/// What came of the last action.
pub enum Event {
    Exists(Vec<bool>),
    Clips(Vec<String>),
    Probed(ProbeOutput),
    Missing,
    TempPath(String),
    Exited(bool),
    Size(Option<u64>),
    Written,
    Removed,
    /// The action could not be performed; the text says why.
    Failed(String),
}

/// The state of one generation run.
pub struct Run {
    pub request: Request,
    /// The configured target duration, in microseconds.
    pub target: u64,
    /// Where the playlist is written.
    pub playlist_path: String,
    /// Where the final video is written.
    pub output_path: String,
    pub stage: Stage,
    /// The clips, in order, once resolved.
    pub clips: Vec<String>,
    pub input_duration: u64,
    /// The duration of the output: the least of end time, target and input.
    pub end: u64,
    pub lead_in: u64,
    /// The card stage's output, once its path is allocated.
    pub overlay: Option<String>,
    /// Whether the playlist may have been created.
    pub playlist_written: bool,
    pub has_audio: bool,
    pub outcome: Option<Result<String, EditorError>>,
}

/// Whether an event answers the action that a run at `stage` asked for.
pub open spec fn answers(stage: Stage, ev: Event) -> bool {
    match ev {
        Event::Failed(_) => stage != Stage::Done,
        Event::Exists(v) => (stage == Stage::Validate && v@.len() == 3)
            || ((stage == Stage::CheckOverlayInputs || stage == Stage::CheckFinalInputs)
            && v@.len() == 2),
        Event::Clips(_) => stage == Stage::ResolveFrames,
        Event::Probed(_) | Event::Missing => stage == Stage::ProbeInputDuration
            || stage == Stage::ProbeLeadInDuration || stage == Stage::ProbeOverlayAudio,
        Event::TempPath(_) => stage == Stage::AllocateOverlay,
        Event::Exited(_) => stage == Stage::ComposeOverlay || stage == Stage::ComposeFinal,
        Event::Size(_) => stage == Stage::MeasureOverlay,
        Event::Written => stage == Stage::WritePlaylist,
        Event::Removed => stage == Stage::Cleanup,
    }
}

/// The temporary files that a run has made: the playlist, then the card
/// stage's output.
pub open spec fn temps_spec(run: Run) -> Seq<Seq<char>> {
    let p: Seq<Seq<char>> = if run.playlist_written { seq![run.playlist_path@] } else { seq![] };
    match run.overlay {
        Some(o) => p.push(o@),
        None => p,
    }
}

pub open spec fn has_temps(run: Run) -> bool {
    run.playlist_written || run.overlay is Some
}

/// The inputs of a run, which no step changes.
pub open spec fn same_inputs(a: Run, b: Run) -> bool {
    &&& a.request == b.request
    &&& a.target == b.target
    &&& a.playlist_path == b.playlist_path
    &&& a.output_path == b.output_path
}

/// The run failed with `e`: it goes on to remove its temporary files where
/// it made any, and finishes with `e` otherwise.
pub open spec fn fails_with(pre: Run, post: Run, r: Action, e: EditorError) -> bool {
    &&& post.outcome == Some(Err::<String, EditorError>(e))
    &&& post.overlay == pre.overlay
    &&& post.playlist_written == pre.playlist_written
    &&& if has_temps(pre) {
        post.stage == Stage::Cleanup && (r matches Action::Remove(v) && texts(v@) == temps_spec(pre))
    } else {
        post.stage == Stage::Done && r == Action::Finish(Err(e))
    }
}

/// The run asks for a probe of `path` with `args`.
pub open spec fn probes(r: Action, path: Seq<char>, args: Seq<Seq<char>>) -> bool {
    r matches Action::Probe { path: p, args: a } && p@ == path && texts(a@) == args
}

/// What a run's state always satisfies.
pub open spec fn wf(run: Run) -> bool {
    &&& run.target >= MIN_TARGET_DURATION
    &&& (run.stage == Stage::Validate || run.stage == Stage::ResolveFrames || run.stage
        == Stage::ProbeInputDuration || run.stage == Stage::ProbeLeadInDuration || run.stage
        == Stage::CheckOverlayInputs || run.stage == Stage::AllocateOverlay) ==> !has_temps(run)
    &&& (run.stage == Stage::ResolveFrames || run.stage == Stage::ProbeInputDuration)
        ==> run.request.end_time > 0
    &&& (run.stage == Stage::ProbeInputDuration || run.stage == Stage::ProbeLeadInDuration)
        ==> run.clips@.len() > 0
    &&& run.stage == Stage::AllocateOverlay ==> run.input_duration >= MIN_LEAD_IN
    &&& (run.stage == Stage::ComposeOverlay || run.stage == Stage::MeasureOverlay || run.stage
        == Stage::ProbeOverlayAudio || run.stage == Stage::WritePlaylist || run.stage
        == Stage::CheckFinalInputs || run.stage == Stage::ComposeFinal) ==> run.overlay is Some
    &&& (run.stage == Stage::Cleanup || run.stage == Stage::Done) ==> run.outcome is Some
}

/// The run moves to `stage`, its temporary files and outcome unchanged.
pub open spec fn moves(pre: Run, post: Run, stage: Stage) -> bool {
    &&& post.stage == stage
    &&& post.overlay == pre.overlay
    &&& post.playlist_written == pre.playlist_written
    &&& post.outcome == pre.outcome
}

/// What a probe run reports as a duration: a failure of the tool where it
/// failed or its answer is no JSON, else what the parsed answer holds.
pub open spec fn duration_reading(out: ProbeOutput) -> Result<u64, EditorError> {
    if !out.success {
        Err(EditorError::ExternalTool(ToolProblem::ProbeExit(out.stderr)))
    } else {
        match json_of(out.stdout@) {
            Some(v) => duration_outcome(v),
            None => Err(EditorError::ExternalTool(ToolProblem::Unparseable)),
        }
    }
}

/// What a probe run restricted to audio streams reports.
pub open spec fn audio_reading(out: ProbeOutput) -> Result<bool, EditorError> {
    if !out.success {
        Err(EditorError::ExternalTool(ToolProblem::ProbeExit(out.stderr)))
    } else {
        match json_of(out.stdout@) {
            Some(v) => Ok(audio_outcome(v)),
            None => Err(EditorError::ExternalTool(ToolProblem::Unparseable)),
        }
    }
}

/// One step of a run: from `pre`, on the event `ev`, to `post`, asking `r`.
pub open spec fn step_spec(pre: Run, ev: Event, post: Run, r: Action) -> bool {
    let req = pre.request;
    match ev {
        Event::Failed(m) => match pre.stage {
            Stage::Cleanup => post.stage == Stage::Done && post.outcome == pre.outcome && r
                == Action::Finish(pre.outcome.unwrap()),
            Stage::ProbeInputDuration | Stage::ProbeLeadInDuration | Stage::ProbeOverlayAudio
            | Stage::ComposeOverlay => fails_with(
                pre,
                post,
                r,
                EditorError::ExternalTool(ToolProblem::Launch(m)),
            ),
            Stage::MeasureOverlay => fails_with(
                pre,
                post,
                r,
                EditorError::ExternalTool(ToolProblem::EmptyOutput),
            ),
            Stage::ComposeFinal => post.stage == Stage::Cleanup && post.outcome == Some(
                Err::<String, EditorError>(EditorError::ExternalTool(ToolProblem::Launch(m))),
            ) && (r matches Action::Remove(v) && texts(v@) == temps_spec(pre)),
            _ => fails_with(pre, post, r, EditorError::Io(m)),
        },
        Event::Exists(v) => if pre.stage == Stage::Validate {
            if !v@[0] {
                fails_with(pre, post, r, EditorError::NotFound(FileRole::InputVideo, req.input_video))
            } else if !v@[1] {
                fails_with(pre, post, r, EditorError::NotFound(FileRole::CardImage, req.card))
            } else if !v@[2] {
                fails_with(pre, post, r, EditorError::NotFound(FileRole::Subtitles, req.subtitles))
            } else if req.end_time <= 0 {
                fails_with(pre, post, r, EditorError::Value(ValueProblem::EndTimeNotPositive))
            } else {
                moves(pre, post, Stage::ResolveFrames) && r == Action::ListClips
            }
        } else if pre.stage == Stage::CheckFinalInputs {
            if !v@[0] {
                fails_with(pre, post, r, EditorError::NotFound(FileRole::Subtitles, req.subtitles))
            } else if !v@[1] {
                fails_with(pre, post, r, EditorError::NotFound(FileRole::Overlay, pre.overlay.unwrap()))
            } else {
                &&& moves(pre, post, Stage::ComposeFinal)
                &&& (r matches Action::Transform(a) && texts(a@) == final_args_spec(
                    pre.overlay.unwrap()@,
                    pre.playlist_path@,
                    pre.has_audio,
                    pre.end as nat,
                    req.subtitles@,
                    pre.output_path@,
                ))
            }
        } else {
            if !v@[0] {
                fails_with(pre, post, r, EditorError::NotFound(FileRole::InputVideo, req.input_video))
            } else if !v@[1] {
                fails_with(pre, post, r, EditorError::NotFound(FileRole::CardImage, req.card))
            } else if pre.input_duration < MIN_LEAD_IN {
                fails_with(pre, post, r, EditorError::Value(ValueProblem::InputTooShort))
            } else {
                moves(pre, post, Stage::AllocateOverlay) && r == Action::AllocateTemp
            }
        },
        Event::Clips(found) => if found@.len() == 0 {
            fails_with(pre, post, r, EditorError::EmptySet)
        } else {
            &&& moves(pre, post, Stage::ProbeInputDuration)
            &&& is_clip_order(found@, post.clips@)
            &&& probes(r, req.input_video@, duration_probe_spec(req.input_video@))
        },
        Event::Missing => match pre.stage {
            Stage::ProbeInputDuration => fails_with(
                pre,
                post,
                r,
                EditorError::NotFound(FileRole::InputVideo, req.input_video),
            ),
            Stage::ProbeLeadInDuration => fails_with(
                pre,
                post,
                r,
                EditorError::NotFound(FileRole::Clip, pre.clips@[0]),
            ),
            _ => fails_with(
                pre,
                post,
                r,
                EditorError::NotFound(FileRole::Overlay, pre.overlay.unwrap()),
            ),
        },
        Event::Probed(out) => match pre.stage {
            Stage::ProbeInputDuration => match duration_reading(out) {
                    Err(e) => fails_with(pre, post, r, e),
                    Ok(d) => {
                        let end = min3(req.end_time as nat, pre.target as nat, d as nat);
                        &&& post.input_duration == d
                        &&& post.end == end
                        &&& if end == 0 {
                            fails_with(
                                pre,
                                post,
                                r,
                                EditorError::Value(ValueProblem::DurationNotPositive),
                            )
                        } else {
                            &&& moves(pre, post, Stage::ProbeLeadInDuration)
                            &&& post.clips == pre.clips
                            &&& probes(r, pre.clips@[0]@, duration_probe_spec(pre.clips@[0]@))
                        }
                    },
                },
            Stage::ProbeLeadInDuration => match duration_reading(out) {
                    Err(e) => fails_with(pre, post, r, e),
                    Ok(d) => {
                        &&& post.lead_in == d
                        &&& post.input_duration == pre.input_duration
                        &&& moves(pre, post, Stage::CheckOverlayInputs)
                        &&& (r matches Action::CheckExist(v) && texts(v@) == seq![
                            req.input_video@,
                            req.card@,
                        ])
                    },
                },
            _ => match audio_reading(out) {
                    Err(e) => fails_with(pre, post, r, e),
                    Ok(a) => {
                        &&& post.has_audio == a
                        &&& post.stage == Stage::WritePlaylist
                        &&& post.playlist_written
                        &&& post.overlay == pre.overlay
                        &&& post.outcome == pre.outcome
                        &&& (r matches Action::Write { path, text } && path@ == pre.playlist_path@
                            && text@ == playlist_spec(texts(pre.clips@)))
                    },
                },
        },
        Event::TempPath(p) => {
            &&& post.stage == Stage::ComposeOverlay
            &&& post.overlay == Some(p)
            &&& post.playlist_written == pre.playlist_written
            &&& post.outcome == pre.outcome
            &&& (r matches Action::Transform(a) && texts(a@) == overlay_args_spec(
                req.input_video@,
                req.card@,
                pre.lead_in as nat,
                pre.input_duration as nat,
                p@,
            ))
        },
        Event::Exited(ok) => if pre.stage == Stage::ComposeOverlay {
            if ok {
                moves(pre, post, Stage::MeasureOverlay) && (r matches Action::Measure(m) && m
                    == pre.overlay.unwrap())
            } else {
                fails_with(pre, post, r, EditorError::ExternalTool(ToolProblem::TransformExit))
            }
        } else {
            &&& post.stage == Stage::Cleanup
            &&& post.outcome == Some(
                if ok {
                    Ok::<String, EditorError>(pre.output_path)
                } else {
                    Err::<String, EditorError>(EditorError::ExternalTool(ToolProblem::TransformExit))
                },
            )
            &&& (r matches Action::Remove(v) && texts(v@) == temps_spec(pre))
        },
        Event::Size(size) => match size {
            Some(n) if n > 0 => moves(pre, post, Stage::ProbeOverlayAudio) && probes(
                r,
                pre.overlay.unwrap()@,
                audio_probe_spec(pre.overlay.unwrap()@),
            ),
            _ => fails_with(pre, post, r, EditorError::ExternalTool(ToolProblem::EmptyOutput)),
        },
        Event::Written => {
            &&& moves(pre, post, Stage::CheckFinalInputs)
            &&& (r matches Action::CheckExist(v) && texts(v@) == seq![
                req.subtitles@,
                pre.overlay.unwrap()@,
            ])
        },
        Event::Removed => post.stage == Stage::Done && post.outcome == pre.outcome && r
            == Action::Finish(pre.outcome.unwrap()),
    }
}

impl Run {
    /// Starts a run: the first action checks that the three files exist.
    pub fn start(
        request: Request,
        target: u64,
        playlist_path: String,
        output_path: String,
    ) -> (r: (Run, Action))
        requires
            target >= MIN_TARGET_DURATION,
        ensures
            r.0.request == request,
            r.0.target == target,
            r.0.playlist_path == playlist_path,
            r.0.output_path == output_path,
            r.0.stage == Stage::Validate,
            r.0.overlay is None,
            !r.0.playlist_written,
            r.0.outcome is None,
            wf(r.0),
            r.1 matches Action::CheckExist(v) && texts(v@) == seq![
                request.input_video@,
                request.card@,
                request.subtitles@,
            ],
    {
        let mut paths: Vec<String> = Vec::new();
        paths.push(request.input_video.clone());
        paths.push(request.card.clone());
        paths.push(request.subtitles.clone());
        let run = Run {
            request,
            target,
            playlist_path,
            output_path,
            stage: Stage::Validate,
            clips: Vec::new(),
            input_duration: 0,
            end: 0,
            lead_in: 0,
            overlay: None,
            playlist_written: false,
            has_audio: false,
            outcome: None,
        };
        proof {
            assert(texts(paths@) =~= seq![
                run.request.input_video@,
                run.request.card@,
                run.request.subtitles@,
            ]);
        }
        (run, Action::CheckExist(paths))
    }

    /// Whether `ev` answers the action that this run asked for last.
    pub fn awaits(&self, ev: &Event) -> (r: bool)
        ensures
            r == answers(self.stage, *ev),
    {
        match ev {
            Event::Failed(_) => self.stage != Stage::Done,
            Event::Exists(v) => (self.stage == Stage::Validate && v.len() == 3) || (self.stage
                == Stage::CheckOverlayInputs && v.len() == 2) || (self.stage
                == Stage::CheckFinalInputs && v.len() == 2),
            Event::Clips(_) => self.stage == Stage::ResolveFrames,
            Event::Probed(_) | Event::Missing => self.stage == Stage::ProbeInputDuration
                || self.stage == Stage::ProbeLeadInDuration || self.stage
                == Stage::ProbeOverlayAudio,
            Event::TempPath(_) => self.stage == Stage::AllocateOverlay,
            Event::Exited(_) => self.stage == Stage::ComposeOverlay || self.stage
                == Stage::ComposeFinal,
            Event::Size(_) => self.stage == Stage::MeasureOverlay,
            Event::Written => self.stage == Stage::WritePlaylist,
            Event::Removed => self.stage == Stage::Cleanup,
        }
    }

    fn temps(&self) -> (r: Vec<String>)
        ensures
            texts(r@) == temps_spec(*self),
    {
        let mut r: Vec<String> = Vec::new();
        if self.playlist_written {
            r.push(self.playlist_path.clone());
        }
        match &self.overlay {
            Some(o) => r.push(o.clone()),
            None => {},
        }
        assert(texts(r@) =~= temps_spec(*self));
        r
    }

    fn fail(&mut self, e: EditorError) -> (r: Action)
        ensures
            fails_with(*old(self), *final(self), r, e),
            same_inputs(*old(self), *final(self)),
            final(self).clips == old(self).clips,
            final(self).input_duration == old(self).input_duration,
            final(self).end == old(self).end,
            final(self).lead_in == old(self).lead_in,
            final(self).has_audio == old(self).has_audio,
    {
        self.outcome = Some(Err(e.clone_error()));
        if self.playlist_written || self.overlay.is_some() {
            self.stage = Stage::Cleanup;
            self.temps_action()
        } else {
            self.stage = Stage::Done;
            Action::Finish(Err(e))
        }
    }

    fn temps_action(&self) -> (r: Action)
        ensures
            r matches Action::Remove(v) && texts(v@) == temps_spec(*self),
    {
        Action::Remove(self.temps())
    }
}

fn clone_outcome(o: &Option<Result<String, EditorError>>) -> (r: Result<String, EditorError>)
    requires
        o is Some,
    ensures
        r == o.unwrap(),
{
    match o {
        Some(Ok(p)) => Ok(p.clone()),
        Some(Err(e)) => Err(e.clone_error()),
        None => Err(EditorError::EmptySet),
    }
}

impl Run {
    fn after_input_probe(&mut self, res: Result<u64, EditorError>) -> (r: Action)
        requires
            old(self).stage == Stage::ProbeInputDuration,
            wf(*old(self)),
        ensures
            wf(*final(self)),
            same_inputs(*old(self), *final(self)),
            match res {
                Err(e) => fails_with(*old(self), *final(self), r, e),
                Ok(d) => {
                    let end = min3(
                        old(self).request.end_time as nat,
                        old(self).target as nat,
                        d as nat,
                    );
                    &&& final(self).input_duration == d
                    &&& final(self).end == end
                    &&& if end == 0 {
                        fails_with(
                            *old(self),
                            *final(self),
                            r,
                            EditorError::Value(ValueProblem::DurationNotPositive),
                        )
                    } else {
                        &&& moves(*old(self), *final(self), Stage::ProbeLeadInDuration)
                        &&& final(self).clips == old(self).clips
                        &&& probes(
                            r,
                            old(self).clips@[0]@,
                            duration_probe_spec(old(self).clips@[0]@),
                        )
                    }
                },
            },
    {
        match res {
            Err(e) => self.fail(e),
            Ok(d) => {
                self.input_duration = d;
                let end = effective_end(self.request.end_time as u64, self.target, d);
                self.end = end;
                if end == 0 {
                    self.fail(EditorError::Value(ValueProblem::DurationNotPositive))
                } else {
                    self.stage = Stage::ProbeLeadInDuration;
                    let path = self.clips[0].clone();
                    let args = duration_probe_args(self.clips[0].as_str());
                    Action::Probe { path, args }
                }
            },
        }
    }

    fn after_lead_in_probe(&mut self, res: Result<u64, EditorError>) -> (r: Action)
        requires
            old(self).stage == Stage::ProbeLeadInDuration,
            wf(*old(self)),
        ensures
            wf(*final(self)),
            same_inputs(*old(self), *final(self)),
            match res {
                Err(e) => fails_with(*old(self), *final(self), r, e),
                Ok(d) => {
                    &&& final(self).lead_in == d
                    &&& final(self).input_duration == old(self).input_duration
                    &&& moves(*old(self), *final(self), Stage::CheckOverlayInputs)
                    &&& (r matches Action::CheckExist(v) && texts(v@) == seq![
                        old(self).request.input_video@,
                        old(self).request.card@,
                    ])
                },
            },
    {
        match res {
            Err(e) => self.fail(e),
            Ok(d) => {
                self.lead_in = d;
                self.stage = Stage::CheckOverlayInputs;
                let mut v: Vec<String> = Vec::new();
                v.push(self.request.input_video.clone());
                v.push(self.request.card.clone());
                assert(texts(v@) =~= seq![self.request.input_video@, self.request.card@]);
                Action::CheckExist(v)
            },
        }
    }

    fn after_audio_probe(&mut self, res: Result<bool, EditorError>) -> (r: Action)
        requires
            old(self).stage == Stage::ProbeOverlayAudio,
            wf(*old(self)),
        ensures
            wf(*final(self)),
            same_inputs(*old(self), *final(self)),
            match res {
                Err(e) => fails_with(*old(self), *final(self), r, e),
                Ok(a) => {
                    &&& final(self).has_audio == a
                    &&& final(self).stage == Stage::WritePlaylist
                    &&& final(self).playlist_written
                    &&& final(self).overlay == old(self).overlay
                    &&& final(self).outcome == old(self).outcome
                    &&& (r matches Action::Write { path, text } && path@
                        == old(self).playlist_path@ && text@ == playlist_spec(
                        texts(old(self).clips@),
                    ))
                },
            },
    {
        match res {
            Err(e) => self.fail(e),
            Ok(a) => {
                self.has_audio = a;
                self.stage = Stage::WritePlaylist;
                self.playlist_written = true;
                let text = playlist_text(&self.clips);
                Action::Write { path: self.playlist_path.clone(), text }
            },
        }
    }

    /// Takes the answer to the last action and returns the next action.
    pub fn step(&mut self, ev: Event) -> (r: Action)
        requires
            wf(*old(self)),
            answers(old(self).stage, ev),
        ensures
            wf(*final(self)),
            same_inputs(*old(self), *final(self)),
            step_spec(*old(self), ev, *final(self), r),
    {
        let ghost pre = *self;
        let ghost event = ev;
        match ev {
            Event::Failed(m) => match self.stage {
                Stage::Cleanup => {
                    self.stage = Stage::Done;
                    Action::Finish(clone_outcome(&self.outcome))
                },
                Stage::ProbeInputDuration | Stage::ProbeLeadInDuration | Stage::ProbeOverlayAudio
                | Stage::ComposeOverlay => self.fail(
                    EditorError::ExternalTool(ToolProblem::Launch(m)),
                ),
                Stage::MeasureOverlay => self.fail(
                    EditorError::ExternalTool(ToolProblem::EmptyOutput),
                ),
                Stage::ComposeFinal => {
                    self.outcome = Some(Err(EditorError::ExternalTool(ToolProblem::Launch(m))));
                    self.stage = Stage::Cleanup;
                    self.temps_action()
                },
                _ => self.fail(EditorError::Io(m)),
            },
            Event::Exists(v) => {
                if self.stage == Stage::Validate {
                    if !v[0] {
                        let p = self.request.input_video.clone();
                        self.fail(EditorError::NotFound(FileRole::InputVideo, p))
                    } else if !v[1] {
                        let p = self.request.card.clone();
                        self.fail(EditorError::NotFound(FileRole::CardImage, p))
                    } else if !v[2] {
                        let p = self.request.subtitles.clone();
                        self.fail(EditorError::NotFound(FileRole::Subtitles, p))
                    } else if self.request.end_time <= 0 {
                        self.fail(EditorError::Value(ValueProblem::EndTimeNotPositive))
                    } else {
                        self.stage = Stage::ResolveFrames;
                        Action::ListClips
                    }
                } else if self.stage == Stage::CheckFinalInputs {
                    let o = match &self.overlay {
                        Some(o) => o.clone(),
                        None => String::new(),
                    };
                    if !v[0] {
                        let p = self.request.subtitles.clone();
                        self.fail(EditorError::NotFound(FileRole::Subtitles, p))
                    } else if !v[1] {
                        self.fail(EditorError::NotFound(FileRole::Overlay, o))
                    } else {
                        self.stage = Stage::ComposeFinal;
                        Action::Transform(
                            final_args(
                                o.as_str(),
                                self.playlist_path.as_str(),
                                self.has_audio,
                                self.end,
                                self.request.subtitles.as_str(),
                                self.output_path.as_str(),
                            ),
                        )
                    }
                } else {
                    if !v[0] {
                        let p = self.request.input_video.clone();
                        self.fail(EditorError::NotFound(FileRole::InputVideo, p))
                    } else if !v[1] {
                        let p = self.request.card.clone();
                        self.fail(EditorError::NotFound(FileRole::CardImage, p))
                    } else if self.input_duration < MIN_LEAD_IN {
                        self.fail(EditorError::Value(ValueProblem::InputTooShort))
                    } else {
                        self.stage = Stage::AllocateOverlay;
                        Action::AllocateTemp
                    }
                }
            },
            Event::Clips(found) => match resolve_clips(&found) {
                Err(e) => self.fail(e),
                Ok(clips) => {
                    self.clips = clips;
                    self.stage = Stage::ProbeInputDuration;
                    let path = self.request.input_video.clone();
                    let args = duration_probe_args(self.request.input_video.as_str());
                    Action::Probe { path, args }
                },
            },
            Event::Missing => match self.stage {
                Stage::ProbeInputDuration => {
                    let p = self.request.input_video.clone();
                    self.fail(EditorError::NotFound(FileRole::InputVideo, p))
                },
                Stage::ProbeLeadInDuration => {
                    let p = self.clips[0].clone();
                    self.fail(EditorError::NotFound(FileRole::Clip, p))
                },
                _ => {
                    let p = match &self.overlay {
                        Some(o) => o.clone(),
                        None => String::new(),
                    };
                    self.fail(EditorError::NotFound(FileRole::Overlay, p))
                },
            },
            Event::Probed(out) => match self.stage {
                Stage::ProbeInputDuration => {
                    let res = duration_from_output(&out);
                    let ghost g = res;
                    let r = self.after_input_probe(res);
                    assert(duration_reading(out) == g);
                    r
                },
                Stage::ProbeLeadInDuration => {
                    let res = duration_from_output(&out);
                    let ghost g = res;
                    let r = self.after_lead_in_probe(res);
                    assert(duration_reading(out) == g);
                    r
                },
                _ => {
                    let res = audio_from_output(&out);
                    let ghost g = res;
                    let r = self.after_audio_probe(res);
                    assert(audio_reading(out) == g);
                    r
                },
            },
            Event::TempPath(p) => {
                let args = overlay_args(
                    self.request.input_video.as_str(),
                    self.request.card.as_str(),
                    self.lead_in,
                    self.input_duration,
                    p.as_str(),
                );
                self.overlay = Some(p);
                self.stage = Stage::ComposeOverlay;
                Action::Transform(args)
            },
            Event::Exited(ok) => {
                if self.stage == Stage::ComposeOverlay {
                    if ok {
                        self.stage = Stage::MeasureOverlay;
                        let p = match &self.overlay {
                            Some(o) => o.clone(),
                            None => String::new(),
                        };
                        Action::Measure(p)
                    } else {
                        self.fail(EditorError::ExternalTool(ToolProblem::TransformExit))
                    }
                } else {
                    let r = self.temps_action();
                    self.outcome = Some(
                        if ok {
                            Ok(self.output_path.clone())
                        } else {
                            Err(EditorError::ExternalTool(ToolProblem::TransformExit))
                        },
                    );
                    self.stage = Stage::Cleanup;
                    r
                }
            },
            Event::Size(size) => {
                let nonempty = match size {
                    Some(n) => n > 0,
                    None => false,
                };
                if nonempty {
                    self.stage = Stage::ProbeOverlayAudio;
                    let p = match &self.overlay {
                        Some(o) => o.clone(),
                        None => String::new(),
                    };
                    let args = audio_probe_args(p.as_str());
                    Action::Probe { path: p, args }
                } else {
                    self.fail(EditorError::ExternalTool(ToolProblem::EmptyOutput))
                }
            },
            Event::Written => {
                self.stage = Stage::CheckFinalInputs;
                let o = match &self.overlay {
                    Some(o) => o.clone(),
                    None => String::new(),
                };
                let mut v: Vec<String> = Vec::new();
                v.push(self.request.subtitles.clone());
                v.push(o);
                assert(texts(v@) =~= seq![self.request.subtitles@, self.overlay.unwrap()@]);
                Action::CheckExist(v)
            },
            Event::Removed => {
                self.stage = Stage::Done;
                Action::Finish(clone_outcome(&self.outcome))
            },
        }
    }
}

impl EditorError {
    /// A copy of the error.
    pub fn clone_error(&self) -> (r: EditorError)
        ensures
            r == *self,
    {
        match self {
            EditorError::NotFound(role, p) => EditorError::NotFound(*role, p.clone()),
            EditorError::Value(v) => EditorError::Value(*v),
            EditorError::EmptySet => EditorError::EmptySet,
            EditorError::ExternalTool(t) => EditorError::ExternalTool(
                match t {
                    ToolProblem::Launch(m) => ToolProblem::Launch(m.clone()),
                    ToolProblem::ProbeExit(m) => ToolProblem::ProbeExit(m.clone()),
                    ToolProblem::TransformExit => ToolProblem::TransformExit,
                    ToolProblem::Unparseable => ToolProblem::Unparseable,
                    ToolProblem::EmptyOutput => ToolProblem::EmptyOutput,
                },
            ),
            EditorError::Data(d) => EditorError::Data(*d),
            EditorError::Io(m) => EditorError::Io(m.clone()),
        }
    }
}

/// The card stage runs no tool where the input video or the card is
/// missing: the run fails with `NotFound` for the first missing one.
pub proof fn lemma_overlay_inputs_checked_first(pre: Run, v: Vec<bool>, post: Run, r: Action)
    requires
        wf(pre),
        pre.stage == Stage::CheckOverlayInputs,
        v@.len() == 2,
        !v@[0] || !v@[1],
        step_spec(pre, Event::Exists(v), post, r),
    ensures
        post.outcome == Some(Err::<String, EditorError>(
            if !v@[0] {
                EditorError::NotFound(FileRole::InputVideo, pre.request.input_video)
            } else {
                EditorError::NotFound(FileRole::CardImage, pre.request.card)
            },
        )),
        post.stage == Stage::Done,
        r is Finish,
{
}

/// A missing subtitle file fails the run with `NotFound` naming it, even
/// where the video and the card exist, before anything else is done.
pub proof fn lemma_missing_subtitles(pre: Run, v: Vec<bool>, post: Run, r: Action)
    requires
        wf(pre),
        pre.stage == Stage::Validate,
        v@ == seq![true, true, false],
        step_spec(pre, Event::Exists(v), post, r),
    ensures
        post.stage == Stage::Done,
        r == Action::Finish(
            Err(EditorError::NotFound(FileRole::Subtitles, pre.request.subtitles)),
        ),
{
}

/// A requested end time that is not positive fails the run with a value
/// error before any probe runs.
pub proof fn lemma_end_time_checked_before_probes(pre: Run, v: Vec<bool>, post: Run, r: Action)
    requires
        wf(pre),
        pre.stage == Stage::Validate,
        v@ == seq![true, true, true],
        pre.request.end_time <= 0,
        step_spec(pre, Event::Exists(v), post, r),
    ensures
        post.stage == Stage::Done,
        r == Action::Finish(Err(EditorError::Value(ValueProblem::EndTimeNotPositive))),
{
}

/// The output lasts the least of the requested end time, the target
/// duration and the input video's duration, whichever order they stand in.
pub proof fn lemma_output_duration(pre: Run, out: ProbeOutput, post: Run, r: Action)
    requires
        wf(pre),
        pre.stage == Stage::ProbeInputDuration,
        step_spec(pre, Event::Probed(out), post, r),
        post.outcome is None,
    ensures
        post.end == min3(pre.request.end_time as nat, pre.target as nat, post.input_duration as nat),
        post.end <= pre.request.end_time && post.end <= pre.target && post.end <= post.input_duration,
        post.end > 0,
{
}

/// The playlist that a run writes, read back line by line, gives its clips
/// in their order, provided that no clip's path holds a newline.
pub proof fn lemma_written_playlist_reads_back(pre: Run, out: ProbeOutput, post: Run, r: Action)
    requires
        wf(pre),
        pre.stage == Stage::ProbeOverlayAudio,
        step_spec(pre, Event::Probed(out), post, r),
        r is Write,
        forall|i: int|
            0 <= i < texts(pre.clips@).len() ==> has_no_newline(#[trigger] texts(pre.clips@)[i]),
    ensures
        r matches Action::Write { path, text } && path@ == pre.playlist_path@ && parse_spec(text@)
            == Some(texts(pre.clips@)),
{
    lemma_playlist_round_trip(texts(pre.clips@));
}

} // verus!
