use video_editor::error::{DataProblem, EditorError, ToolProblem};
use video_editor::probe::{
    audio_from_output, audio_probe_args, duration_from_json, duration_from_output,
    duration_probe_args, ProbeOutput,
};

fn out(success: bool, stdout: &str) -> ProbeOutput {
    ProbeOutput { success, stdout: stdout.to_string(), stderr: "boom".to_string() }
}

#[test]
fn duration_is_read_from_format() {
    let o = out(true, r#"{"format": {"duration": "30.000000"}}"#);
    assert_eq!(duration_from_output(&o), Ok(30_000_000));
    let v: serde_json::Value = serde_json::from_str(r#"{"format": {"duration": "2.5"}}"#).unwrap();
    assert_eq!(duration_from_json(&v), Ok(2_500_000));
}

#[test]
fn duration_errors_are_classified() {
    assert_eq!(
        duration_from_output(&out(true, r#"{"format": {}}"#)),
        Err(EditorError::Data(DataProblem::MissingDuration))
    );
    assert_eq!(
        duration_from_output(&out(true, r#"{"format": {"duration": 3}}"#)),
        Err(EditorError::Data(DataProblem::MissingDuration))
    );
    assert_eq!(
        duration_from_output(&out(true, r#"{"format": {"duration": "N/A"}}"#)),
        Err(EditorError::Data(DataProblem::BadDuration))
    );
    assert_eq!(
        duration_from_output(&out(true, "not json")),
        Err(EditorError::ExternalTool(ToolProblem::Unparseable))
    );
    assert_eq!(
        duration_from_output(&out(false, "")),
        Err(EditorError::ExternalTool(ToolProblem::ProbeExit("boom".to_string())))
    );
}

#[test]
fn audio_presence_is_a_nonempty_stream_list() {
    assert_eq!(audio_from_output(&out(true, r#"{"streams": [{"codec_type": "audio"}]}"#)), Ok(true));
    assert_eq!(audio_from_output(&out(true, r#"{"streams": []}"#)), Ok(false));
    assert_eq!(audio_from_output(&out(true, r#"{}"#)), Ok(false));
    assert_eq!(
        audio_from_output(&out(true, "{")),
        Err(EditorError::ExternalTool(ToolProblem::Unparseable))
    );
}

#[test]
fn probe_arguments() {
    assert_eq!(
        duration_probe_args("in.mp4"),
        vec!["-v", "error", "-show_entries", "format=duration", "-of", "json", "in.mp4"]
    );
    assert_eq!(
        audio_probe_args("in.mp4"),
        vec!["-v", "error", "-select_streams", "a", "-show_entries", "stream=codec_type", "-of", "json", "in.mp4"]
    );
}
