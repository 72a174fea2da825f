use tw_widgets::cava::{
    pulse_cava_config, smoothed_cava_config, CIRCLE_BANDS, CIRCLE_MAX, LAUNCHPAD_BANDS,
    SPECTRUM_MAX, VISUALIZER_BANDS,
};
use tw_widgets::donut::{frame_size, luminance_char, paint_frame};
use tw_widgets::geo::{timezone_marker, utc_offset_hours};
use tw_widgets::life::{life_step, live_points, mask_rows, seed_board, LIFE_HEIGHT, LIFE_WIDTH};
use tw_widgets::system::{core_grid_layout, format_bytes};

fn float_label(bytes: u64) -> String {
    let gb = bytes as f64 / (1024.0 * 1024.0 * 1024.0);
    if gb >= 1.0 {
        format!("{:.1}G", gb)
    } else {
        let mb = bytes as f64 / (1024.0 * 1024.0);
        format!("{:.0}M", mb)
    }
}

#[test]
fn format_bytes_exact_values() {
    assert_eq!(format_bytes(0), "0M");
    assert_eq!(format_bytes(512 * 1024 * 1024), "512M");
    assert_eq!(format_bytes(1024 * 1024 * 1024), "1.0G");
    assert_eq!(format_bytes(16 * 1024 * 1024 * 1024 - 1), "16.0G");
    assert_eq!(format_bytes(1536 * 1024 * 1024), "1.5G");
    assert_eq!(format_bytes(u64::MAX), "17179869184.0G");
}

#[test]
fn format_bytes_rounds_ties_to_even() {
    // 0.5 MiB and 2.5 MiB are exact ties
    assert_eq!(format_bytes(512 * 1024), float_label(512 * 1024));
    assert_eq!(format_bytes(512 * 1024 * 5), float_label(512 * 1024 * 5));
    // 1.25 GiB and 1.75 GiB are exact ties at one decimal
    assert_eq!(format_bytes(1280 * 1024 * 1024), float_label(1280 * 1024 * 1024));
    assert_eq!(format_bytes(1792 * 1024 * 1024), float_label(1792 * 1024 * 1024));
}

#[test]
fn format_bytes_agrees_with_float_formatting() {
    let mut samples: Vec<u64> = vec![1, 1023, 1048575, 1048576, 1073741823, 1073741824, 1073741825];
    let mut x: u64 = 0x9E37_79B9_7F4A_7C15;
    for _ in 0..4000 {
        x ^= x << 13;
        x ^= x >> 7;
        x ^= x << 17;
        samples.push(x >> (x % 64));
        samples.push(x);
    }
    for k in 50..64 {
        samples.push((1u64 << k) - 1);
        samples.push((1u64 << k) + 1);
        samples.push((1u64 << k) + (1u64 << (k - 53)));
        samples.push((1u64 << k) + (1u64 << (k - 52)) + (1u64 << (k - 53)));
    }
    for b in samples {
        assert_eq!(format_bytes(b), float_label(b), "bytes {}", b);
    }
}

#[test]
fn gib_label_exactly_from_one_gib() {
    assert!(format_bytes(1073741823).ends_with('M'));
    assert!(format_bytes(1073741824).ends_with('G'));
}

#[test]
fn core_grid_rows_and_padding() {
    assert_eq!(core_grid_layout(16, 100), (2, 30));
    assert_eq!(core_grid_layout(9, 41), (2, 1));
    assert_eq!(core_grid_layout(0, 10), (0, 1));
    assert_eq!(core_grid_layout(8, 43), (1, 1));
    assert_eq!(core_grid_layout(12, 44), (2, 2));
}

#[test]
fn timezone_markers() {
    assert_eq!(timezone_marker(0), (-1, 515));
    assert_eq!(timezone_marker(3600), (23, 489));
    assert_eq!(timezone_marker(-5 * 3600), (-740, 407));
    assert_eq!(timezone_marker(-5 * 3600 - 1800), (-740, 407));
    assert_eq!(timezone_marker(5 * 3600 + 1800), (692, 413));
    assert_eq!(timezone_marker(-3599), (-1, 515));
    assert_eq!(timezone_marker(14 * 3600), (0, 0));
    assert_eq!(timezone_marker(i32::MIN), (0, 0));
    for secs in [-50000, -3601, -1, 0, 1, 3599, 3600, 45000, 86399] {
        assert_eq!(utc_offset_hours(secs), (secs as f64 / 3600.0) as i32);
    }
}

#[test]
fn life_mask_rows_skip_empty_lines() {
    let rows = mask_rows(b"0110\r\n\n1001\n\n");
    assert_eq!(rows, vec![b"0110".to_vec(), b"1001".to_vec()]);
    assert!(mask_rows(b"").is_empty());
    assert_eq!(mask_rows(b"11\r"), vec![b"11\r".to_vec()]);
}

#[test]
fn life_seed_centres_mask_over_noise() {
    let mask = vec![b"11".to_vec(), b"1".to_vec()];
    let noise = vec![vec![true; 6]; 4];
    let g = seed_board(&mask, &noise, 6, 4);
    // the mask occupies rows 1..3 and columns 2..4
    assert_eq!(g[0], vec![true; 6]);
    assert_eq!(g[1], vec![true, true, true, true, true, true]);
    assert_eq!(g[2], vec![true, true, true, false, true, true]);
    assert_eq!(g[3], vec![true; 6]);
    let zero_mask = vec![b"00".to_vec()];
    let g = seed_board(&zero_mask, &noise, 6, 4);
    assert_eq!(g[1], vec![true, true, false, false, true, true]);
}

#[test]
fn life_blinker_oscillates() {
    let mut g = vec![vec![false; 5]; 5];
    g[2][1] = true;
    g[2][2] = true;
    g[2][3] = true;
    let next = life_step(&g, 5, 5);
    let mut want = vec![vec![false; 5]; 5];
    want[1][2] = true;
    want[2][2] = true;
    want[3][2] = true;
    assert_eq!(next, want);
    assert_eq!(life_step(&next, 5, 5), g);
}

#[test]
fn life_block_is_still_and_empty_stays_empty() {
    let mut g = vec![vec![false; 4]; 4];
    g[1][1] = true;
    g[1][2] = true;
    g[2][1] = true;
    g[2][2] = true;
    assert_eq!(life_step(&g, 4, 4), g);
    let empty = vec![vec![false; LIFE_WIDTH]; LIFE_HEIGHT];
    assert_eq!(life_step(&empty, LIFE_WIDTH, LIFE_HEIGHT), empty);
}

#[test]
fn life_wraps_around_edges() {
    // a blinker across the left/right edge
    let mut g = vec![vec![false; 5]; 5];
    g[2][4] = true;
    g[2][0] = true;
    g[2][1] = true;
    let next = life_step(&g, 5, 5);
    assert!(next[1][0] && next[2][0] && next[3][0]);
    assert_eq!(next.iter().flatten().filter(|c| **c).count(), 3);
}

#[test]
fn life_points_split_by_colour() {
    let mut g = vec![vec![false; 3]; 2];
    g[0][0] = true; // 0 % 3 == 0: amber
    g[0][1] = true; // 7 % 3 != 0: white
    g[1][2] = true; // 14 + 13 = 27: amber
    let (white, amber) = live_points(&g, 3, 2);
    assert_eq!(white, vec![(1, 1)]);
    assert_eq!(amber, vec![(0, 1), (2, 0)]);
}

#[test]
fn donut_ramp_and_size() {
    assert_eq!(luminance_char(-3), '.');
    assert_eq!(luminance_char(0), '.');
    assert_eq!(luminance_char(5), ';');
    assert_eq!(luminance_char(11), '@');
    assert_eq!(luminance_char(40), '@');
    assert_eq!(frame_size(4, 30), (10, 30));
    assert_eq!(frame_size(80, 24), (80, 24));
}

#[test]
fn donut_frame_painting() {
    let buf: Vec<char> = "..@ ".chars().chain(" ,;@".chars()).collect();
    let out = paint_frame(&buf, 4, 2);
    let white = "\x1b[38;2;255;255;255m";
    let amber = "\x1b[38;2;255;179;0m";
    let reset = "\x1b[0m";
    let want = format!("{white}..{amber}@{reset} \n {white},;{amber}@{reset}");
    assert_eq!(out, want);
    assert_eq!(paint_frame(&vec![' '; 2], 2, 1), "  ");
    assert_eq!(paint_frame(&vec![], 0, 3), "\n\n");
}

#[test]
fn cava_configs() {
    let v = smoothed_cava_config(VISUALIZER_BANDS, SPECTRUM_MAX);
    assert_eq!(v, "[general]\nframerate = 60\nbars = 240\nautosens = 1\novershoot = 0\n\n[output]\nmethod = raw\nraw_target = /dev/stdout\ndata_format = ascii\nascii_max_range = 1000\n\n[smoothing]\nmonstercat = 1\nwaves = 0\nnoise_reduction = 10\ngravity = 120\n");
    let l = smoothed_cava_config(LAUNCHPAD_BANDS, SPECTRUM_MAX);
    assert!(l.contains("bars = 16\n"));
    let c = pulse_cava_config(CIRCLE_BANDS, CIRCLE_MAX);
    assert_eq!(c, "[general]\nbars = 240\nframerate = 60\n[input]\nmethod = pulse\n[output]\nmethod = raw\nraw_target = /dev/stdout\ndata_format = ascii\nascii_max_range = 100\n[color]\n");
    assert!(smoothed_cava_config(0, 0).contains("bars = 0\n"));
}
