//! The configuration files written for `cava`, the audio spectrum source of
//! the visualizer, launchpad and audio circle widgets.
use vstd::prelude::*;
use crate::text::{decimal, extend_str, push_decimal, string_of};

verus! {

/// Spectrum bands of the visualizer.
pub const VISUALIZER_BANDS: u64 = 240;

/// Spectrum bands of the launchpad.
pub const LAUNCHPAD_BANDS: u64 = 16;

/// Spectrum bands of the audio circle.
pub const CIRCLE_BANDS: u64 = 240;

/// The largest level `cava` reports to the visualizer and the launchpad.
pub const SPECTRUM_MAX: u64 = 1000;

/// The largest level `cava` reports to the audio circle.
pub const CIRCLE_MAX: u64 = 100;

/// The configuration for raw ASCII output of `bars` bands scaled to
/// `0..=max_range`, with monstercat smoothing.
pub open spec fn smoothed_config(bars: nat, max_range: nat) -> Seq<char> {
    "[general]\nframerate = 60\nbars = "@ + decimal(bars)
        + "\nautosens = 1\novershoot = 0\n\n[output]\nmethod = raw\nraw_target = /dev/stdout\ndata_format = ascii\nascii_max_range = "@
        + decimal(max_range)
        + "\n\n[smoothing]\nmonstercat = 1\nwaves = 0\nnoise_reduction = 10\ngravity = 120\n"@
}

/// The configuration for raw ASCII output of `bars` bands from PulseAudio,
/// scaled to `0..=max_range`.
pub open spec fn pulse_config(bars: nat, max_range: nat) -> Seq<char> {
    "[general]\nbars = "@ + decimal(bars) + "\nframerate = 60\n[input]\nmethod = pulse\n[output]\nmethod = raw\nraw_target = /dev/stdout\ndata_format = ascii\nascii_max_range = "@
        + decimal(max_range) + "\n[color]\n"@
}

/// Writes the smoothed raw-output configuration.
pub fn smoothed_cava_config(bars: u64, max_range: u64) -> (cfg: String)
    ensures
        cfg@ == smoothed_config(bars as nat, max_range as nat),
{
    let mut out: Vec<char> = Vec::new();
    extend_str(&mut out, "[general]\nframerate = 60\nbars = ");
    push_decimal(&mut out, bars);
    extend_str(
        &mut out,
        "\nautosens = 1\novershoot = 0\n\n[output]\nmethod = raw\nraw_target = /dev/stdout\ndata_format = ascii\nascii_max_range = ",
    );
    push_decimal(&mut out, max_range);
    extend_str(
        &mut out,
        "\n\n[smoothing]\nmonstercat = 1\nwaves = 0\nnoise_reduction = 10\ngravity = 120\n",
    );
    assert(out@ =~= smoothed_config(bars as nat, max_range as nat));
    string_of(&out)
}

/// Writes the PulseAudio raw-output configuration.
pub fn pulse_cava_config(bars: u64, max_range: u64) -> (cfg: String)
    ensures
        cfg@ == pulse_config(bars as nat, max_range as nat),
{
    let mut out: Vec<char> = Vec::new();
    extend_str(&mut out, "[general]\nbars = ");
    push_decimal(&mut out, bars);
    extend_str(
        &mut out,
        "\nframerate = 60\n[input]\nmethod = pulse\n[output]\nmethod = raw\nraw_target = /dev/stdout\ndata_format = ascii\nascii_max_range = ",
    );
    push_decimal(&mut out, max_range);
    extend_str(&mut out, "\n[color]\n");
    assert(out@ =~= pulse_config(bars as nat, max_range as nat));
    string_of(&out)
}

} // verus!
