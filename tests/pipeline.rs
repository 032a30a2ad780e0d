use video_editor::commands::{final_args, overlay_args};
use video_editor::editor::VideoEditor;
use video_editor::error::{EditorError, FileRole, ToolProblem, ValueProblem};
use video_editor::pipeline::{Action, Event, Run, Stage};
use video_editor::probe::ProbeOutput;

fn strings(v: &[&str]) -> Vec<String> {
    v.iter().map(|s| s.to_string()).collect()
}

fn probed(stdout: &str) -> Event {
    Event::Probed(ProbeOutput { success: true, stdout: stdout.to_string(), stderr: String::new() })
}

fn start(end_time: i64) -> (Run, Action) {
    VideoEditor::new(None).generate_video(
        end_time,
        "in.mp4".to_string(),
        "card.png".to_string(),
        "subs.ass".to_string(),
    )
}

fn finished(a: Action) -> Result<String, EditorError> {
    match a {
        Action::Finish(r) => r,
        _ => panic!("the run should be over"),
    }
}

#[test]
fn editor_target_duration() {
    assert_eq!(VideoEditor::new(None).duration, 60_000_000);
    assert_eq!(VideoEditor::new(Some(200_000)).duration, 1_000_000);
    assert_eq!(VideoEditor::new(Some(5_000_000)).duration, 5_000_000);
}

#[test]
fn overlay_arguments() {
    let a = overlay_args("in.mp4", "card.png", 2_000_000, 30_000_000, "/tmp/o.mp4");
    assert_eq!(
        a,
        vec![
            "-i", "in.mp4", "-i", "card.png", "-filter_complex",
            "[0:v]scale=iw:ih[scaled_input];[1:v]scale=iw*0.90:ih*0.8[card];[scaled_input][card]overlay=(W-w)/2:(H-h)/2:enable='between(t,0,1.9)'[v]",
            "-map", "[v]", "-map", "0:a:0?", "-c:v", "libx264", "-c:a", "aac", "-pix_fmt", "yuv420p",
            "-t", "30", "-y", "/tmp/o.mp4",
        ]
    );
    let short = overlay_args("in.mp4", "card.png", 50_000, 5_000_000, "o.mp4");
    assert!(short[5].ends_with("between(t,0,0.0)'[v]"));
}

#[test]
fn final_arguments_mix_or_map() {
    let mixed = final_args("o.mp4", "concat_list.txt", true, 10_000_000, "subs.ass", "output.mp4");
    assert_eq!(
        mixed,
        vec![
            "-y", "-i", "o.mp4", "-f", "concat", "-safe", "0", "-i", "concat_list.txt",
            "-filter_complex",
            "[0:a:0][1:a:0]amix=inputs=2:duration=longest:dropout_transition=0,aresample=async=1000[a]",
            "-map", "0:v:0", "-map", "[a]",
            "-t", "10", "-c:v", "libx264", "-preset", "fast", "-crf", "22", "-c:a", "aac",
            "-b:a", "192k", "-vf", "subtitles=subs.ass", "output.mp4",
        ]
    );
    let plain = final_args("o.mp4", "concat_list.txt", false, 2_500_000, "subs.ass", "output.mp4");
    assert_eq!(&plain[9..13], &["-map", "0:v:0", "-map", "1:a:0"]);
    assert_eq!(&plain[13..15], &["-t", "2.5"]);
}

#[test]
fn end_to_end_run() {
    let (mut run, a) = start(10_000_000);
    match a {
        Action::CheckExist(p) => assert_eq!(p, strings(&["in.mp4", "card.png", "subs.ass"])),
        _ => panic!("expected a file check"),
    }
    assert!(matches!(run.step(Event::Exists(vec![true, true, true])), Action::ListClips));
    let found = strings(&["frames/clip_3.wav", "frames/clip_1.wav", "frames/clip_2.wav"]);
    match run.step(Event::Clips(found)) {
        Action::Probe { path, args } => {
            assert_eq!(path, "in.mp4");
            assert_eq!(args.last().unwrap(), "in.mp4");
        }
        _ => panic!("expected the input probe"),
    }
    match run.step(probed(r#"{"format": {"duration": "30.000000"}}"#)) {
        Action::Probe { path, .. } => assert_eq!(path, "frames/clip_1.wav"),
        _ => panic!("expected the lead-in probe"),
    }
    assert_eq!(run.end, 10_000_000);
    match run.step(probed(r#"{"format": {"duration": "2.000000"}}"#)) {
        Action::CheckExist(p) => assert_eq!(p, strings(&["in.mp4", "card.png"])),
        _ => panic!("expected the overlay input check"),
    }
    assert!(matches!(run.step(Event::Exists(vec![true, true])), Action::AllocateTemp));
    match run.step(Event::TempPath("/tmp/x.mp4".to_string())) {
        Action::Transform(args) => {
            assert!(args[5].contains("between(t,0,1.9)"));
            assert_eq!(&args[16..18], &["-t", "30"]);
        }
        _ => panic!("expected the card stage"),
    }
    match run.step(Event::Exited(true)) {
        Action::Measure(p) => assert_eq!(p, "/tmp/x.mp4"),
        _ => panic!("expected a size check"),
    }
    assert!(matches!(run.step(Event::Size(Some(4096))), Action::Probe { .. }));
    match run.step(probed(r#"{"streams": [{"codec_type": "audio"}]}"#)) {
        Action::Write { path, text } => {
            assert_eq!(path, "concat_list.txt");
            assert_eq!(
                text,
                "file 'frames/clip_1.wav'\nfile 'frames/clip_2.wav'\nfile 'frames/clip_3.wav'\n"
            );
        }
        _ => panic!("expected the playlist"),
    }
    match run.step(Event::Written) {
        Action::CheckExist(p) => assert_eq!(p, strings(&["subs.ass", "/tmp/x.mp4"])),
        _ => panic!("expected the final input check"),
    }
    match run.step(Event::Exists(vec![true, true])) {
        Action::Transform(args) => {
            assert_eq!(args[9], "-filter_complex");
            assert!(args.windows(2).any(|w| w[0] == "-t" && w[1] == "10"));
            assert_eq!(args.last().unwrap(), "output.mp4");
        }
        _ => panic!("expected the final composition"),
    }
    match run.step(Event::Exited(true)) {
        Action::Remove(p) => assert_eq!(p, strings(&["concat_list.txt", "/tmp/x.mp4"])),
        _ => panic!("expected cleanup"),
    }
    assert_eq!(finished(run.step(Event::Removed)), Ok("output.mp4".to_string()));
    assert!(run.stage == Stage::Done);
}

#[test]
fn missing_subtitles_named() {
    let (mut run, _) = start(10_000_000);
    assert_eq!(
        finished(run.step(Event::Exists(vec![true, true, false]))),
        Err(EditorError::NotFound(FileRole::Subtitles, "subs.ass".to_string()))
    );
}

#[test]
fn missing_input_and_card_named() {
    let (mut run, _) = start(10_000_000);
    assert_eq!(
        finished(run.step(Event::Exists(vec![false, false, true]))),
        Err(EditorError::NotFound(FileRole::InputVideo, "in.mp4".to_string()))
    );
    let (mut run, _) = start(10_000_000);
    assert_eq!(
        finished(run.step(Event::Exists(vec![true, false, true]))),
        Err(EditorError::NotFound(FileRole::CardImage, "card.png".to_string()))
    );
}

#[test]
fn zero_end_time_is_a_value_error() {
    let (mut run, _) = start(0);
    assert_eq!(
        finished(run.step(Event::Exists(vec![true, true, true]))),
        Err(EditorError::Value(ValueProblem::EndTimeNotPositive))
    );
    let (mut run, _) = start(-3);
    assert_eq!(
        finished(run.step(Event::Exists(vec![true, true, true]))),
        Err(EditorError::Value(ValueProblem::EndTimeNotPositive))
    );
}

fn to_overlay_check(run: &mut Run, input: &str) {
    run.step(Event::Exists(vec![true, true, true]));
    run.step(Event::Clips(strings(&["frames/clip_1.wav"])));
    run.step(probed(input));
    run.step(probed(r#"{"format": {"duration": "2.0"}}"#));
}

#[test]
fn empty_clip_set_fails() {
    let (mut run, _) = start(10_000_000);
    run.step(Event::Exists(vec![true, true, true]));
    assert_eq!(finished(run.step(Event::Clips(Vec::new()))), Err(EditorError::EmptySet));
}

#[test]
fn zero_input_duration_fails() {
    let (mut run, _) = start(10_000_000);
    run.step(Event::Exists(vec![true, true, true]));
    run.step(Event::Clips(strings(&["frames/clip_1.wav"])));
    assert_eq!(
        finished(run.step(probed(r#"{"format": {"duration": "0.000000"}}"#))),
        Err(EditorError::Value(ValueProblem::DurationNotPositive))
    );
}

#[test]
fn card_missing_at_overlay_stops_before_tools() {
    let (mut run, _) = start(10_000_000);
    to_overlay_check(&mut run, r#"{"format": {"duration": "30.0"}}"#);
    assert!(run.stage == Stage::CheckOverlayInputs);
    assert_eq!(
        finished(run.step(Event::Exists(vec![true, false]))),
        Err(EditorError::NotFound(FileRole::CardImage, "card.png".to_string()))
    );
}

#[test]
fn very_short_input_is_refused() {
    let (mut run, _) = start(10_000_000);
    to_overlay_check(&mut run, r#"{"format": {"duration": "0.05"}}"#);
    assert_eq!(
        finished(run.step(Event::Exists(vec![true, true]))),
        Err(EditorError::Value(ValueProblem::InputTooShort))
    );
}

#[test]
fn empty_overlay_output_cleans_up() {
    let (mut run, _) = start(10_000_000);
    to_overlay_check(&mut run, r#"{"format": {"duration": "30.0"}}"#);
    run.step(Event::Exists(vec![true, true]));
    run.step(Event::TempPath("/tmp/y.mp4".to_string()));
    run.step(Event::Exited(true));
    match run.step(Event::Size(Some(0))) {
        Action::Remove(p) => assert_eq!(p, strings(&["/tmp/y.mp4"])),
        _ => panic!("expected cleanup"),
    }
    assert_eq!(
        finished(run.step(Event::Failed("gone".to_string()))),
        Err(EditorError::ExternalTool(ToolProblem::EmptyOutput))
    );
}

#[test]
fn failed_final_composition_still_cleans_up() {
    let (mut run, _) = start(10_000_000);
    to_overlay_check(&mut run, r#"{"format": {"duration": "30.0"}}"#);
    run.step(Event::Exists(vec![true, true]));
    run.step(Event::TempPath("/tmp/z.mp4".to_string()));
    run.step(Event::Exited(true));
    run.step(Event::Size(Some(10)));
    match run.step(probed(r#"{"streams": []}"#)) {
        Action::Write { .. } => {}
        _ => panic!("expected the playlist"),
    }
    run.step(Event::Written);
    match run.step(Event::Exists(vec![true, true])) {
        Action::Transform(args) => assert_eq!(&args[9..13], &["-map", "0:v:0", "-map", "1:a:0"]),
        _ => panic!("expected the final composition"),
    }
    match run.step(Event::Exited(false)) {
        Action::Remove(p) => assert_eq!(p, strings(&["concat_list.txt", "/tmp/z.mp4"])),
        _ => panic!("expected cleanup"),
    }
    assert_eq!(
        finished(run.step(Event::Removed)),
        Err(EditorError::ExternalTool(ToolProblem::TransformExit))
    );
}

#[test]
fn awaits_only_the_pending_answer() {
    let (run, _) = start(10_000_000);
    assert!(run.awaits(&Event::Exists(vec![true, true, true])));
    assert!(!run.awaits(&Event::Exists(vec![true, true])));
    assert!(!run.awaits(&Event::Written));
}

#[test]
fn subtitles_removed_before_final_composition() {
    let (mut run, _) = start(10_000_000);
    to_overlay_check(&mut run, r#"{"format": {"duration": "30.0"}}"#);
    run.step(Event::Exists(vec![true, true]));
    run.step(Event::TempPath("/tmp/w.mp4".to_string()));
    run.step(Event::Exited(true));
    run.step(Event::Size(Some(10)));
    run.step(probed(r#"{"streams": []}"#));
    run.step(Event::Written);
    assert!(run.stage == Stage::CheckFinalInputs);
    match run.step(Event::Exists(vec![false, true])) {
        Action::Remove(p) => assert_eq!(p, strings(&["concat_list.txt", "/tmp/w.mp4"])),
        _ => panic!("expected cleanup"),
    }
    assert_eq!(
        finished(run.step(Event::Removed)),
        Err(EditorError::NotFound(FileRole::Subtitles, "subs.ass".to_string()))
    );
}
