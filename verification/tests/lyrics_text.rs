use tw_widgets::lyrics::lrc::lrc_tags;
use tw_widgets::lyrics::metadata::{clean_metadata, is_playing_status, parse_song_metadata};
use tw_widgets::lyrics::search::{
    choose_lyrics, lyrics_from_responses, lyrics_search_urls, urlencode, TrackLyrics,
};
use tw_widgets::lyrics::session::{
    centering_padding, lyric_line, watch_song, ClockStep, LineTier, LyricsDisplay, LyricsLookup,
    LyricsState, PlaybackClock, SongChange,
};

/// The metadata rules written with std's string methods, as an oracle.
fn clean_with_std(raw_artist: &str, raw_title: &str) -> (String, String) {
    let looks_like_channel = raw_artist.ends_with("VEVO")
        || raw_artist.ends_with("Official")
        || raw_artist.contains("Channel")
        || raw_artist.contains("TV")
        || raw_artist.is_empty();
    let strip = |s: &str| -> String {
        s.replace("(Official Video)", "")
            .replace("[Official Video]", "")
            .replace("(Lyric Video)", "")
            .replace("[Lyric Video]", "")
            .replace("(Lyrics)", "")
            .replace("[Lyrics]", "")
            .replace("(Official Music Video)", "")
            .replace("[Official Music Video]", "")
            .replace("(Official Audio)", "")
            .replace("[Official Audio]", "")
            .replace("(Audio)", "")
            .replace("[Audio]", "")
            .replace("(Live)", "")
            .replace("[Live]", "")
            .replace("ft.", "feat.")
            .trim()
            .to_string()
    };
    if looks_like_channel {
        if let Some(idx) = raw_title.find(" - ") {
            return (raw_title[..idx].trim().to_string(), strip(&raw_title[idx + 3..]));
        }
    }
    if !raw_artist.is_empty() && raw_title.contains(" - ") {
        if let Some(idx) = raw_title.find(" - ") {
            let t = strip(&raw_title[idx + 3..]);
            if !t.is_empty() {
                return (raw_artist.to_string(), t);
            }
        }
    }
    (raw_artist.to_string(), strip(raw_title))
}

#[test]
fn clean_metadata_channel_takes_artist_from_title() {
    let (a, t) = clean_metadata("RickAstleyVEVO", "Rick Astley - Never Gonna Give You Up (Official Video)");
    assert_eq!(a, "Rick Astley");
    assert_eq!(t, "Never Gonna Give You Up");
}

#[test]
fn clean_metadata_known_artist_keeps_artist() {
    let (a, t) = clean_metadata("Daft Punk", "Daft Punk - One More Time [Official Audio]");
    assert_eq!(a, "Daft Punk");
    assert_eq!(t, "One More Time");
}

#[test]
fn clean_metadata_empty_artist_and_feat() {
    let (a, t) = clean_metadata("", "  Song ft. Someone (Live)  ");
    assert_eq!(a, "");
    assert_eq!(t, "Song feat. Someone");
}

#[test]
fn clean_metadata_known_artist_empty_tail_falls_back() {
    let (a, t) = clean_metadata("Band", "Band - (Lyrics)");
    assert_eq!(a, "Band");
    assert_eq!(t, "Band - (Lyrics)".replace("(Lyrics)", "").trim());
}

#[test]
fn clean_metadata_matches_std_rules() {
    let artists = ["", "Artist", "FooVEVO", "Official", "My Channel", "MTV", "x", " Ünïcödé "];
    let titles = [
        "",
        " - ",
        "A - B",
        "A - B - C",
        "  Title (Official Video) [Lyrics] ",
        "X - (Audio)[Audio]",
        "ft.ft. - ft.",
        "((Official Video)Official Video)",
        "日本語 - 歌 (Live)",
        "\u{3000}tab\t- x\u{a0}",
        "no separator here",
        "A -B",
    ];
    for a in artists.iter() {
        for t in titles.iter() {
            assert_eq!(clean_metadata(a, t), clean_with_std(a, t), "artist {:?} title {:?}", a, t);
        }
    }
}

#[test]
fn cleaned_title_has_no_outer_whitespace() {
    for t in ["  a  ", "x - \t y \n", "(Live) z (Live)"] {
        let (_, title) = clean_metadata("", t);
        assert_eq!(title.trim(), title);
    }
}

#[test]
fn urlencode_escapes_reserved_characters() {
    assert_eq!(urlencode("a b&c+d#e?f"), "a%20b%26c%2Bd%23e%3Ff");
    assert_eq!(urlencode("plain-text_ñ"), "plain-text_ñ");
    assert_eq!(urlencode(""), "");
    let enc = urlencode("what? #1 & more + less");
    assert!(!enc.contains(' ') && !enc.contains('&') && !enc.contains('+'));
    assert!(!enc.contains('#') && !enc.contains('?'));
}

#[test]
fn search_urls_are_built_in_order() {
    let urls = lyrics_search_urls("AC DC", "T.N.T?");
    assert_eq!(urls.len(), 3);
    assert_eq!(urls[0], "https://lrclib.net/api/search?artist_name=AC%20DC&track_name=T.N.T%3F");
    assert_eq!(urls[1], "https://lrclib.net/api/search?q=AC%20DC+T.N.T%3F");
    assert_eq!(urls[2], "https://lrclib.net/api/search?q=T.N.T%3F");
}

#[test]
fn playing_status_ignores_case_and_space() {
    assert!(is_playing_status("Playing\n"));
    assert!(is_playing_status("  PLAYING "));
    assert!(is_playing_status("playing"));
    assert!(!is_playing_status("Paused"));
    assert!(!is_playing_status("Playing now"));
    assert!(!is_playing_status(""));
}

#[test]
fn song_metadata_needs_one_bar_and_a_title() {
    assert_eq!(
        parse_song_metadata("Queen|Bohemian Rhapsody (Official Video)\n"),
        Some(("Queen".to_string(), "Bohemian Rhapsody".to_string()))
    );
    assert_eq!(parse_song_metadata("Queen|"), None);
    assert_eq!(parse_song_metadata("a|b|c"), None);
    assert_eq!(parse_song_metadata("no bar"), None);
    assert_eq!(parse_song_metadata("Artist|(Live)"), None);
    assert_eq!(
        parse_song_metadata(" |Nirvana - Lithium "),
        Some(("Nirvana".to_string(), "Lithium".to_string()))
    );
}

#[test]
fn lrc_tags_pick_tagged_lines() {
    let lrc = "[00:12.50] First line\r\n[01:02.00]Second\nplain text\n[ar:Someone]\n[1:2:3] x\n[00:05.00]  \n";
    let tags = lrc_tags(lrc);
    let got: Vec<(String, String, String)> =
        tags.into_iter().map(|t| (t.minutes, t.seconds, t.text)).collect();
    assert_eq!(
        got,
        vec![
            ("00".to_string(), "12.50".to_string(), "First line".to_string()),
            ("01".to_string(), "02.00".to_string(), "Second".to_string()),
            ("ar".to_string(), "Someone".to_string(), "".to_string()),
            ("00".to_string(), "05.00".to_string(), "".to_string()),
        ]
    );
}

#[test]
fn lrc_tags_keep_a_final_carriage_return() {
    let tags = lrc_tags("[00:01.00] end\r");
    assert_eq!(tags.len(), 1);
    assert_eq!(tags[0].text, "end");
    let tags = lrc_tags("[00:01.00]\r");
    assert_eq!(tags[0].text, "");
    assert!(lrc_tags("").is_empty());
    assert!(lrc_tags("]00:01[").is_empty());
}

fn track(synced: Option<&str>, plain: Option<&str>) -> TrackLyrics {
    TrackLyrics { synced: synced.map(|s| s.to_string()), plain: plain.map(|s| s.to_string()) }
}

#[test]
fn choose_lyrics_prefers_synced_anywhere() {
    let responses = vec![
        vec![track(None, Some("plain one")), track(Some(""), Some("plain two"))],
        vec![track(Some("[00:01.00] synced"), None)],
    ];
    assert_eq!(choose_lyrics(&responses), Some((true, "[00:01.00] synced".to_string())));
}

#[test]
fn choose_lyrics_falls_back_to_plain_then_none() {
    let responses = vec![vec![track(Some(""), Some("")), track(None, Some("words"))]];
    assert_eq!(choose_lyrics(&responses), Some((false, "words".to_string())));
    let empty = vec![vec![track(Some(""), None)], vec![]];
    assert_eq!(choose_lyrics(&empty), None);
    assert_eq!(choose_lyrics(&vec![]), None);
}

#[test]
fn lyrics_from_responses_decodes_json() {
    let bodies = vec![
        b"not json".to_vec(),
        b"[]".to_vec(),
        br#"[{"plainLyrics":"la la","syncedLyrics":null}]"#.to_vec(),
        br#"[{"syncedLyrics":"[00:01.00] hi","plainLyrics":"hi"}]"#.to_vec(),
    ];
    assert_eq!(lyrics_from_responses(&bodies), Some((true, "[00:01.00] hi".to_string())));
    let plain_only = vec![br#"[{"plainLyrics":"la la","syncedLyrics":7}]"#.to_vec()];
    assert_eq!(lyrics_from_responses(&plain_only), Some((false, "la la".to_string())));
    let object = vec![br#"{"plainLyrics":"la la"}"#.to_vec()];
    assert_eq!(lyrics_from_responses(&object), None);
}

#[test]
fn state_starts_waiting_and_resets() {
    let mut s: LyricsState<u32> = LyricsState::new();
    assert_eq!(s.title, "Detectando audio...");
    assert_eq!(s.status, "Esperando reproductor...");
    assert_eq!(s.display(), LyricsDisplay::Status);
    assert_eq!(s.header_text(), "Detectando audio...");
    s.begin_song("A".to_string(), "B".to_string());
    assert_eq!(s.song_generation, 1);
    s.reset();
    assert_eq!(s.song_generation, 0);
    assert_eq!(s.artist, "");
}

#[test]
fn lookup_for_current_song_is_applied() {
    let mut s: LyricsState<u32> = LyricsState::new();
    s.begin_song("Artist".to_string(), "Song".to_string());
    assert_eq!(s.status, "⟳ Buscando letras...");
    assert_eq!(s.header_text(), "Artist — Song");
    s.apply_lookup(&"Artist".to_string(), &"Song".to_string(), LyricsLookup::Synced(vec![1, 2]));
    assert!(s.has_sync);
    assert_eq!(s.lines, vec![1, 2]);
    assert_eq!(s.status, "♪ Sincronizado");
    assert_eq!(s.display(), LyricsDisplay::Synced);
}

#[test]
fn lookup_for_old_song_is_ignored() {
    let mut s: LyricsState<u32> = LyricsState::new();
    s.begin_song("Artist".to_string(), "New".to_string());
    s.apply_lookup(&"Artist".to_string(), &"Old".to_string(), LyricsLookup::Plain("x".to_string()));
    assert_eq!(s.plain, "");
    assert_eq!(s.status, "⟳ Buscando letras...");
    s.apply_lookup(&"Artist".to_string(), &"New".to_string(), LyricsLookup::Plain("words".to_string()));
    assert_eq!(s.plain, "words");
    assert_eq!(s.status, "♪ Sin timestamps");
    assert_eq!(s.display(), LyricsDisplay::Plain);
    s.apply_lookup(&"Artist".to_string(), &"New".to_string(), LyricsLookup::Missing);
    assert_eq!(s.status, "[ Letras no encontradas ]");
}

#[test]
fn watch_song_detects_changes() {
    let e = String::new();
    let song = Some(("A".to_string(), "B".to_string()));
    assert_eq!(watch_song(&e, &e, &song), SongChange::Started);
    assert_eq!(watch_song(&"A".to_string(), &"B".to_string(), &song), SongChange::Same);
    assert_eq!(watch_song(&"A".to_string(), &"B".to_string(), &None), SongChange::Stopped);
    assert_eq!(watch_song(&e, &e, &None), SongChange::Same);
}

#[test]
fn lyric_lines_by_distance() {
    assert_eq!(lyric_line(5, 5, "now"), (LineTier::Current, "▶ now".to_string()));
    assert_eq!(lyric_line(4, 5, "a"), (LineTier::Adjacent, "  a".to_string()));
    assert_eq!(lyric_line(7, 5, "b"), (LineTier::Near, "  b".to_string()));
    assert_eq!(lyric_line(0, 5, "c").0, LineTier::Far);
    assert_eq!(centering_padding(24), 11);
    assert_eq!(centering_padding(1), 0);
    assert_eq!(centering_padding(2), 0);
}

#[test]
fn playback_clock_follows_changes() {
    let mut c = PlaybackClock::new();
    let s = c.step(true, 1);
    assert_eq!(s, ClockStep { reset: true, resume: true, pause: false });
    let s = c.step(true, 1);
    assert_eq!(s, ClockStep { reset: false, resume: false, pause: false });
    let s = c.step(false, 1);
    assert_eq!(s, ClockStep { reset: false, resume: false, pause: true });
    let s = c.step(false, 2);
    assert_eq!(s, ClockStep { reset: true, resume: false, pause: false });
    let s = c.step(true, 3);
    assert_eq!(s, ClockStep { reset: true, resume: true, pause: false });
}
