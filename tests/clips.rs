use video_editor::error::EditorError;
use video_editor::frames::{clip_key, resolve_clips, stable_order};
use video_editor::playlist::{parse_playlist, playlist_text};

fn strings(v: &[&str]) -> Vec<String> {
    v.iter().map(|s| s.to_string()).collect()
}

#[test]
fn clips_sort_numerically() {
    let found = strings(&["frames/clip_2.wav", "frames/clip_10.wav", "frames/clip_1.wav"]);
    let ordered = resolve_clips(&found).unwrap();
    assert_eq!(ordered, strings(&["frames/clip_1.wav", "frames/clip_2.wav", "frames/clip_10.wav"]));
}

#[test]
fn clips_without_digits_keep_their_order() {
    let found = strings(&["frames/b.wav", "frames/a.wav", "frames/x_3.wav", "frames/c_0.wav"]);
    let ordered = resolve_clips(&found).unwrap();
    assert_eq!(ordered, strings(&["frames/b.wav", "frames/a.wav", "frames/c_0.wav", "frames/x_3.wav"]));
}

#[test]
fn large_numbers_order_by_value() {
    let found = strings(&["frames/clip_99999999999.wav", "frames/clip_1.wav"]);
    let ordered = resolve_clips(&found).unwrap();
    assert_eq!(ordered, strings(&["frames/clip_1.wav", "frames/clip_99999999999.wav"]));
}

#[test]
fn no_clips_is_an_empty_set() {
    assert_eq!(resolve_clips(&Vec::new()), Err(EditorError::EmptySet));
}

#[test]
fn key_is_first_digit_run() {
    assert_eq!(clip_key("frames/clip_12_3.wav"), 12);
    assert_eq!(clip_key("7"), 7);
    assert_eq!(clip_key("frames/clip.wav"), 0);
    assert_eq!(clip_key("a2147483647"), 2147483647);
    assert_eq!(clip_key("a2147483648"), 2147483648);
    assert_eq!(clip_key("a18446744073709551615"), u64::MAX);
    assert_eq!(clip_key("a99999999999999999999"), u64::MAX);
    assert_eq!(clip_key("x007y"), 7);
}

#[test]
fn stable_order_by_key_then_position() {
    assert_eq!(stable_order(&vec![3, 1, 2, 1]), vec![1, 3, 2, 0]);
    assert_eq!(stable_order(&vec![]), Vec::<usize>::new());
}

#[test]
fn playlist_lists_clips_in_order() {
    let clips = strings(&["frames/clip_1.wav", "frames/clip_2.wav"]);
    assert_eq!(playlist_text(&clips), "file 'frames/clip_1.wav'\nfile 'frames/clip_2.wav'\n");
}

#[test]
fn playlist_reads_back() {
    let clips = strings(&["frames/clip_1.wav", "frames/it's 2.wav", "frames/clip_10.wav"]);
    assert_eq!(parse_playlist(&playlist_text(&clips)), Some(clips));
    assert_eq!(parse_playlist(""), Some(Vec::new()));
    assert_eq!(parse_playlist("file 'a'"), Some(strings(&["a"])));
    assert_eq!(parse_playlist("nonsense\n"), None);
}
