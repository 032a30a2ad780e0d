//! The argument lists handed to the transform tool.
use vstd::prelude::*;
use crate::text::{push_arg, push_owned, push_str, texts};
use crate::timing::{
    overlay_window_end, seconds_text, seconds_text_spec, tenths_text, tenths_text_spec,
    window_end_spec, MIN_LEAD_IN,
};

verus! {

/// The filter graph of the card stage: the video at its own size, the card
/// at 90% of the width and 80% of the height, centred, shown from 0 to
/// `window_end`.
pub open spec fn overlay_filter_spec(window_end: nat) -> Seq<char> {
    "[0:v]scale=iw:ih[scaled_input];[1:v]scale=iw*0.90:ih*0.8[card];[scaled_input][card]overlay=(W-w)/2:(H-h)/2:enable='between(t,0,"@
        + tenths_text_spec(window_end) + ")'[v]"@
}

pub fn overlay_filter(window_end: u64) -> (r: String)
    requires
        window_end <= u64::MAX - 50_000,
    ensures
        r@ == overlay_filter_spec(window_end as nat),
{
    let mut r = String::new();
    push_str(&mut r, "[0:v]scale=iw:ih[scaled_input];[1:v]scale=iw*0.90:ih*0.8[card];[scaled_input][card]overlay=(W-w)/2:(H-h)/2:enable='between(t,0,");
    let w = tenths_text(window_end);
    push_str(&mut r, w.as_str());
    push_str(&mut r, ")'[v]");
    assert(r@ =~= overlay_filter_spec(window_end as nat));
    r
}

/// The transform arguments of the card stage.
pub open spec fn overlay_args_spec(
    input: Seq<char>,
    card: Seq<char>,
    lead_in: nat,
    total: nat,
    output: Seq<char>,
) -> Seq<Seq<char>> {
    seq![
        "-i"@, input, "-i"@, card,
        "-filter_complex"@, overlay_filter_spec(window_end_spec(lead_in, total)),
        "-map"@, "[v]"@, "-map"@, "0:a:0?"@,
        "-c:v"@, "libx264"@, "-c:a"@, "aac"@, "-pix_fmt"@, "yuv420p"@,
        "-t"@, seconds_text_spec(total), "-y"@, output,
    ]
}

/// Arguments that composite the card over the first seconds of the input,
/// truncate to `total` and write to `output`. The audio stream is mapped
/// where there is one.
pub fn overlay_args(input: &str, card: &str, lead_in: u64, total: u64, output: &str) -> (r: Vec<
    String,
>)
    requires
        total >= MIN_LEAD_IN,
    ensures
        texts(r@) == overlay_args_spec(input@, card@, lead_in as nat, total as nat, output@),
{
    let window_end = overlay_window_end(lead_in, total);
    let mut r: Vec<String> = Vec::new();
    push_arg(&mut r, "-i");
    push_arg(&mut r, input);
    push_arg(&mut r, "-i");
    push_arg(&mut r, card);
    push_arg(&mut r, "-filter_complex");
    push_owned(&mut r, overlay_filter(window_end));
    push_arg(&mut r, "-map");
    push_arg(&mut r, "[v]");
    push_arg(&mut r, "-map");
    push_arg(&mut r, "0:a:0?");
    push_arg(&mut r, "-c:v");
    push_arg(&mut r, "libx264");
    push_arg(&mut r, "-c:a");
    push_arg(&mut r, "aac");
    push_arg(&mut r, "-pix_fmt");
    push_arg(&mut r, "yuv420p");
    push_arg(&mut r, "-t");
    push_owned(&mut r, seconds_text(total));
    push_arg(&mut r, "-y");
    push_arg(&mut r, output);
    assert(texts(r@) =~= overlay_args_spec(input@, card@, lead_in as nat, total as nat, output@));
    r
}

/// Mixes the overlay's audio with the playlist's, as long as the longer,
/// resampling to absorb drift.
pub open spec fn mix_filter_spec() -> Seq<char> {
    "[0:a:0][1:a:0]amix=inputs=2:duration=longest:dropout_transition=0,aresample=async=1000[a]"@
}

/// How the final composition picks its streams.
pub open spec fn stream_map_spec(has_audio: bool) -> Seq<Seq<char>> {
    if has_audio {
        seq!["-filter_complex"@, mix_filter_spec(), "-map"@, "0:v:0"@, "-map"@, "[a]"@]
    } else {
        seq!["-map"@, "0:v:0"@, "-map"@, "1:a:0"@]
    }
}

/// The transform arguments of the final composition.
pub open spec fn final_args_spec(
    overlay: Seq<char>,
    playlist: Seq<char>,
    has_audio: bool,
    end: nat,
    subtitles: Seq<char>,
    output: Seq<char>,
) -> Seq<Seq<char>> {
    seq!["-y"@, "-i"@, overlay, "-f"@, "concat"@, "-safe"@, "0"@, "-i"@, playlist]
        + stream_map_spec(has_audio)
        + seq![
        "-t"@, seconds_text_spec(end),
        "-c:v"@, "libx264"@, "-preset"@, "fast"@, "-crf"@, "22"@,
        "-c:a"@, "aac"@, "-b:a"@, "192k"@,
        "-vf"@, "subtitles="@ + subtitles, output,
    ]
}

/// Arguments that take the video from the overlay output, the audio from
/// the playlist (mixed with the overlay's own where it has some), burn in
/// the subtitles, truncate to `end` and write to `output`.
pub fn final_args(
    overlay: &str,
    playlist: &str,
    has_audio: bool,
    end: u64,
    subtitles: &str,
    output: &str,
) -> (r: Vec<String>)
    ensures
        texts(r@) == final_args_spec(overlay@, playlist@, has_audio, end as nat, subtitles@, output@),
{
    let mut r: Vec<String> = Vec::new();
    push_arg(&mut r, "-y");
    push_arg(&mut r, "-i");
    push_arg(&mut r, overlay);
    push_arg(&mut r, "-f");
    push_arg(&mut r, "concat");
    push_arg(&mut r, "-safe");
    push_arg(&mut r, "0");
    push_arg(&mut r, "-i");
    push_arg(&mut r, playlist);
    if has_audio {
        push_arg(&mut r, "-filter_complex");
        push_arg(
            &mut r,
            "[0:a:0][1:a:0]amix=inputs=2:duration=longest:dropout_transition=0,aresample=async=1000[a]",
        );
        push_arg(&mut r, "-map");
        push_arg(&mut r, "0:v:0");
        push_arg(&mut r, "-map");
        push_arg(&mut r, "[a]");
    } else {
        push_arg(&mut r, "-map");
        push_arg(&mut r, "0:v:0");
        push_arg(&mut r, "-map");
        push_arg(&mut r, "1:a:0");
    }
    push_arg(&mut r, "-t");
    push_owned(&mut r, seconds_text(end));
    push_arg(&mut r, "-c:v");
    push_arg(&mut r, "libx264");
    push_arg(&mut r, "-preset");
    push_arg(&mut r, "fast");
    push_arg(&mut r, "-crf");
    push_arg(&mut r, "22");
    push_arg(&mut r, "-c:a");
    push_arg(&mut r, "aac");
    push_arg(&mut r, "-b:a");
    push_arg(&mut r, "192k");
    push_arg(&mut r, "-vf");
    let mut sub = String::new();
    push_str(&mut sub, "subtitles=");
    push_str(&mut sub, subtitles);
    push_owned(&mut r, sub);
    push_arg(&mut r, output);
    assert(texts(r@) =~= final_args_spec(overlay@, playlist@, has_audio, end as nat, subtitles@, output@));
    r
}

} // verus!
