use video_editor::timing::{
    effective_end, overlay_window_end, parse_seconds, seconds_text, target_duration, tenths_text,
};

#[test]
fn parses_probe_durations() {
    assert_eq!(parse_seconds("30.024000"), Some(30_024_000));
    assert_eq!(parse_seconds("5"), Some(5_000_000));
    assert_eq!(parse_seconds(".5"), Some(500_000));
    assert_eq!(parse_seconds("5."), Some(5_000_000));
    assert_eq!(parse_seconds("1.2345678"), Some(1_234_567));
    assert_eq!(parse_seconds("0"), Some(0));
}

#[test]
fn rejects_other_duration_texts() {
    assert_eq!(parse_seconds("N/A"), None);
    assert_eq!(parse_seconds(""), None);
    assert_eq!(parse_seconds("."), None);
    assert_eq!(parse_seconds("-1"), None);
    assert_eq!(parse_seconds("1e3"), None);
    assert_eq!(parse_seconds("1.2.3"), None);
    assert_eq!(parse_seconds("1234567890123"), None);
    assert_eq!(parse_seconds("123456789012"), Some(123_456_789_012_000_000));
}

#[test]
fn writes_seconds_shortest() {
    assert_eq!(seconds_text(30_000_000), "30");
    assert_eq!(seconds_text(2_500_000), "2.5");
    assert_eq!(seconds_text(1), "0.000001");
    assert_eq!(seconds_text(30_024_000), "30.024");
    assert_eq!(seconds_text(0), "0");
}

#[test]
fn writes_tenths() {
    assert_eq!(tenths_text(1_900_000), "1.9");
    assert_eq!(tenths_text(0), "0.0");
    assert_eq!(tenths_text(12_340_000), "12.3");
    assert_eq!(tenths_text(1_950_000), "2.0");
}

#[test]
fn target_duration_defaults_and_floor() {
    assert_eq!(target_duration(None), 60_000_000);
    assert_eq!(target_duration(Some(500_000)), 1_000_000);
    assert_eq!(target_duration(Some(-5)), 1_000_000);
    assert_eq!(target_duration(Some(90_000_000)), 90_000_000);
}

#[test]
fn output_duration_is_least_of_three() {
    // end > target > input, and every other order
    assert_eq!(effective_end(90, 60, 30), 30);
    assert_eq!(effective_end(90, 30, 60), 30);
    assert_eq!(effective_end(60, 90, 30), 30);
    assert_eq!(effective_end(30, 90, 60), 30);
    assert_eq!(effective_end(30, 60, 90), 30);
    assert_eq!(effective_end(60, 30, 90), 30);
    assert_eq!(effective_end(10_000_000, 60_000_000, 30_000_000), 10_000_000);
}

#[test]
fn lead_in_is_clamped_before_window() {
    assert_eq!(overlay_window_end(50_000, 5_000_000), 0);
    assert_eq!(overlay_window_end(2_000_000, 30_000_000), 1_900_000);
    assert_eq!(overlay_window_end(10_000_000, 5_000_000), 4_900_000);
    assert_eq!(tenths_text(overlay_window_end(50_000, 5_000_000)), "0.0");
}

