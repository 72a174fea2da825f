//! Reading what the media player reports: cleaning YouTube-style
//! metadata into an artist and a title, and the player's status.
use vstd::prelude::*;
use crate::text::{
    chars_of, contains, contains_chars, copy_chars, ends_with, ends_with_chars, find, find_chars, find_from, occurs_at,
    replace, replace_str, slice_chars, string_of, trim, trim_chars,
};

verus! {

// ----------------------------------------------------------------------------
// Metadata cleaning
// ----------------------------------------------------------------------------

/// Removes the decorations that video titles carry ("(Official Video)",
/// "[Lyrics]", ...), one kind after the other, and spells "ft." as "feat.".
pub open spec fn undecorated(s: Seq<char>) -> Seq<char> {
    let e = Seq::<char>::empty();
    let s1 = replace(s, "(Official Video)"@, e);
    let s2 = replace(s1, "[Official Video]"@, e);
    let s3 = replace(s2, "(Lyric Video)"@, e);
    let s4 = replace(s3, "[Lyric Video]"@, e);
    let s5 = replace(s4, "(Lyrics)"@, e);
    let s6 = replace(s5, "[Lyrics]"@, e);
    let s7 = replace(s6, "(Official Music Video)"@, e);
    let s8 = replace(s7, "[Official Music Video]"@, e);
    let s9 = replace(s8, "(Official Audio)"@, e);
    let s10 = replace(s9, "[Official Audio]"@, e);
    let s11 = replace(s10, "(Audio)"@, e);
    let s12 = replace(s11, "[Audio]"@, e);
    let s13 = replace(s12, "(Live)"@, e);
    let s14 = replace(s13, "[Live]"@, e);
    replace(s14, "ft."@, "feat."@)
}

/// The title without its decorations, trimmed.
pub open spec fn strip_decorations(s: Seq<char>) -> Seq<char> {
    trim(undecorated(s))
}

/// The artist field looks like a channel name rather than an artist.
pub open spec fn is_channel_name(artist: Seq<char>) -> bool {
    ||| ends_with(artist, "VEVO"@)
    ||| ends_with(artist, "Official"@)
    ||| contains(artist, "Channel"@)
    ||| contains(artist, "TV"@)
    ||| artist.len() == 0
}

/// The (artist, title) pair that metadata cleaning yields: a channel-like
/// artist is replaced by the part of the title before " - "; a known artist
/// keeps the part of the title after " - " when that part is not empty;
/// otherwise the title is only stripped of its decorations.
pub open spec fn cleaned_metadata(artist: Seq<char>, title: Seq<char>) -> (Seq<char>, Seq<char>) {
    let sep = " - "@;
    match find(title, sep) {
        Some(idx) => {
            let after = strip_decorations(title.subrange(idx + sep.len(), title.len() as int));
            if is_channel_name(artist) {
                (trim(title.subrange(0, idx)), after)
            } else if artist.len() > 0 && after.len() > 0 {
                (artist, after)
            } else {
                (artist, strip_decorations(title))
            }
        },
        None => (artist, strip_decorations(title)),
    }
}

fn strip_decorations_chars(s: &Vec<char>) -> (out: Vec<char>)
    ensures
        out@ == strip_decorations(s@),
{
    let s1 = replace_str(s, "(Official Video)", "");
    let s2 = replace_str(&s1, "[Official Video]", "");
    let s3 = replace_str(&s2, "(Lyric Video)", "");
    let s4 = replace_str(&s3, "[Lyric Video]", "");
    let s5 = replace_str(&s4, "(Lyrics)", "");
    let s6 = replace_str(&s5, "[Lyrics]", "");
    let s7 = replace_str(&s6, "(Official Music Video)", "");
    let s8 = replace_str(&s7, "[Official Music Video]", "");
    let s9 = replace_str(&s8, "(Official Audio)", "");
    let s10 = replace_str(&s9, "[Official Audio]", "");
    let s11 = replace_str(&s10, "(Audio)", "");
    let s12 = replace_str(&s11, "[Audio]", "");
    let s13 = replace_str(&s12, "(Live)", "");
    let s14 = replace_str(&s13, "[Live]", "");
    let s15 = replace_str(&s14, "ft.", "feat.");
    proof {
        reveal_strlit("");
        assert(""@ =~= Seq::<char>::empty());
    }
    trim_chars(&s15)
}

fn is_channel_name_chars(artist: &Vec<char>) -> (b: bool)
    ensures
        b == is_channel_name(artist@),
{
    ends_with_chars(artist, &chars_of("VEVO")) || ends_with_chars(artist, &chars_of("Official"))
        || contains_chars(artist, &chars_of("Channel")) || contains_chars(artist, &chars_of("TV"))
        || artist.len() == 0
}

fn clean_metadata_chars(artist: &Vec<char>, title: &Vec<char>) -> (out: (Vec<char>, Vec<char>))
    ensures
        (out.0@, out.1@) == cleaned_metadata(artist@, title@),
{
    let sep = chars_of(" - ");
    let found = find_chars(title, &sep);
    if is_channel_name_chars(artist) {
        if let Some(idx) = found {
            let before = slice_chars(title, 0, idx);
            let after = slice_chars(title, idx + sep.len(), title.len());
            return (trim_chars(&before), strip_decorations_chars(&after));
        }
    }
    if artist.len() > 0 {
        if let Some(idx) = found {
            let after = slice_chars(title, idx + sep.len(), title.len());
            let maybe_title = strip_decorations_chars(&after);
            if maybe_title.len() > 0 {
                return (copy_chars(artist), maybe_title);
            }
        }
    }
    (copy_chars(artist), strip_decorations_chars(title))
}

/// Cleans YouTube-style player metadata into an (artist, title) pair.
pub fn clean_metadata(raw_artist: &str, raw_title: &str) -> (out: (String, String))
    ensures
        (out.0@, out.1@) == cleaned_metadata(raw_artist@, raw_title@),
{
    let a = chars_of(raw_artist);
    let t = chars_of(raw_title);
    let (ca, ct) = clean_metadata_chars(&a, &t);
    (string_of(&ca), string_of(&ct))
}

// ----------------------------------------------------------------------------
// Player output
// ----------------------------------------------------------------------------

/// The code of `c` with ASCII capitals mapped to lower case.
pub open spec fn ascii_folded(c: char) -> u32 {
    if 'A' <= c && c <= 'Z' {
        (c as u32 + 32) as u32
    } else {
        c as u32
    }
}

/// `a` and `b` are equal up to ASCII case (`str::eq_ignore_ascii_case`).
pub open spec fn eq_ignore_ascii_case(a: Seq<char>, b: Seq<char>) -> bool {
    a.len() == b.len() && forall|i: int| 0 <= i < a.len() ==> ascii_folded(#[trigger] a[i])
        == ascii_folded(b[i])
}

fn ascii_folded_exec(c: char) -> (v: u32)
    ensures
        v == ascii_folded(c),
{
    let v = c as u32;
    if 65 <= v && v <= 90 {
        v + 32
    } else {
        v
    }
}

fn eq_ignore_ascii_case_chars(a: &Vec<char>, b: &Vec<char>) -> (r: bool)
    ensures
        r == eq_ignore_ascii_case(a@, b@),
{
    if a.len() != b.len() {
        return false;
    }
    let mut i: usize = 0;
    while i < a.len()
        invariant
            a.len() == b.len(),
            i <= a.len(),
            forall|k: int| 0 <= k < i ==> ascii_folded(#[trigger] a@[k]) == ascii_folded(b@[k]),
        decreases a.len() - i,
    {
        if ascii_folded_exec(a[i]) != ascii_folded_exec(b[i]) {
            return false;
        }
        i += 1;
    }
    true
}

/// What `playerctl status` printed means that the player is playing.
pub open spec fn reports_playing(output: Seq<char>) -> bool {
    eq_ignore_ascii_case(trim(output), "Playing"@)
}

/// Whether the output of `playerctl status` says "Playing", in any case.
pub fn is_playing_status(output: &str) -> (b: bool)
    ensures
        b == reports_playing(output@),
{
    let cs = chars_of(output);
    let t = trim_chars(&cs);
    eq_ignore_ascii_case_chars(&t, &chars_of("Playing"))
}

/// The song that `playerctl metadata --format "{{ artist }}|{{ title }}"`
/// reports: the trimmed output must hold exactly one `|` with a non-empty
/// title after it, and the cleaned title must not be empty.
pub open spec fn song_from_metadata(output: Seq<char>) -> Option<(Seq<char>, Seq<char>)> {
    let text = trim(output);
    let bar = seq!['|'];
    match find(text, bar) {
        Some(p) => {
            let before = text.subrange(0, p);
            let after = text.subrange(p + 1, text.len() as int);
            if contains(after, bar) || after.len() == 0 {
                None
            } else {
                let cleaned = cleaned_metadata(trim(before), trim(after));
                if cleaned.1.len() > 0 {
                    Some(cleaned)
                } else {
                    None
                }
            }
        },
        None => None,
    }
}

/// Reads the (artist, title) pair out of the player's metadata output.
pub fn parse_song_metadata(output: &str) -> (song: Option<(String, String)>)
    ensures
        match song {
            Some((a, t)) => song_from_metadata(output@) == Some((a@, t@)),
            None => song_from_metadata(output@) is None,
        },
{
    let cs = chars_of(output);
    let text = trim_chars(&cs);
    let mut bar: Vec<char> = Vec::new();
    bar.push('|');
    assert(bar@ =~= seq!['|']);
    match find_chars(&text, &bar) {
        Some(p) => {
            let before = slice_chars(&text, 0, p);
            let after = slice_chars(&text, p + 1, text.len());
            if contains_chars(&after, &bar) || after.len() == 0 {
                return None;
            }
            let (a, t) = clean_metadata_chars(&trim_chars(&before), &trim_chars(&after));
            if t.len() > 0 {
                Some((string_of(&a), string_of(&t)))
            } else {
                None
            }
        },
        None => None,
    }
}

// ----------------------------------------------------------------------------
// Laws
// ----------------------------------------------------------------------------
/// The cleaned title never starts or ends with white space.
pub proof fn cleaned_title_is_trimmed(artist: Seq<char>, title: Seq<char>)
    ensures
        trim(cleaned_metadata(artist, title).1) == cleaned_metadata(artist, title).1,
{
    let sep = " - "@;
    match find(title, sep) {
        Some(idx) => {
            crate::text::lemma_trim_idempotent(
                undecorated(title.subrange(idx + sep.len(), title.len() as int)),
            );
        },
        None => {},
    }
    crate::text::lemma_trim_idempotent(undecorated(title));
}


// ----------------------------------------------------------------------------
// Removing the decorations
// ----------------------------------------------------------------------------

/// The decorations that cleaning removes from titles, in the order it
/// removes them.
pub open spec fn title_decorations() -> Seq<Seq<char>> {
    seq![
        "(Official Video)"@,
        "[Official Video]"@,
        "(Lyric Video)"@,
        "[Lyric Video]"@,
        "(Lyrics)"@,
        "[Lyrics]"@,
        "(Official Music Video)"@,
        "[Official Music Video]"@,
        "(Official Audio)"@,
        "[Official Audio]"@,
        "(Audio)"@,
        "[Audio]"@,
        "(Live)"@,
        "[Live]"@,
    ]
}

/// An opening bracket, `(` or `[`.
pub open spec fn is_bracket(c: char) -> bool {
    c == '(' || c == '['
}

/// `t` holds no opening bracket.
pub open spec fn bracket_free(t: Seq<char>) -> bool {
    forall|i: int| 0 <= i < t.len() ==> !is_bracket(#[trigger] t[i])
}

/// `d` opens with a bracket, holds no other opening bracket and no `-`.
spec fn bracket_led(d: Seq<char>) -> bool {
    &&& d.len() > 0
    &&& is_bracket(d[0])
    &&& forall|i: int| 0 <= i < d.len() ==> (#[trigger] d[i]) != '-'
    &&& bracket_free(d.drop_first())
}

/// `a` is not where `b` starts.
spec fn not_prefix_of(a: Seq<char>, b: Seq<char>) -> bool {
    !(a.len() <= b.len() && b.subrange(0, a.len() as int) == a)
}

proof fn lemma_decoration_shape(j: int)
    requires
        0 <= j < 14,
    ensures
        title_decorations().len() == 14,
        bracket_led(title_decorations()[j]),
{
    let ds = title_decorations();
    if j == 0 {
        reveal_strlit("(Official Video)");
        assert(ds[0] == "(Official Video)"@);
        assert(ds[0].drop_first() =~= "(Official Video)"@.subrange(1, 16));
    } else if j == 1 {
        reveal_strlit("[Official Video]");
        assert(ds[1] == "[Official Video]"@);
        assert(ds[1].drop_first() =~= "[Official Video]"@.subrange(1, 16));
    } else if j == 2 {
        reveal_strlit("(Lyric Video)");
        assert(ds[2] == "(Lyric Video)"@);
        assert(ds[2].drop_first() =~= "(Lyric Video)"@.subrange(1, 13));
    } else if j == 3 {
        reveal_strlit("[Lyric Video]");
        assert(ds[3] == "[Lyric Video]"@);
        assert(ds[3].drop_first() =~= "[Lyric Video]"@.subrange(1, 13));
    } else if j == 4 {
        reveal_strlit("(Lyrics)");
        assert(ds[4] == "(Lyrics)"@);
        assert(ds[4].drop_first() =~= "(Lyrics)"@.subrange(1, 8));
    } else if j == 5 {
        reveal_strlit("[Lyrics]");
        assert(ds[5] == "[Lyrics]"@);
        assert(ds[5].drop_first() =~= "[Lyrics]"@.subrange(1, 8));
    } else if j == 6 {
        reveal_strlit("(Official Music Video)");
        assert(ds[6] == "(Official Music Video)"@);
        assert(ds[6].drop_first() =~= "(Official Music Video)"@.subrange(1, 22));
    } else if j == 7 {
        reveal_strlit("[Official Music Video]");
        assert(ds[7] == "[Official Music Video]"@);
        assert(ds[7].drop_first() =~= "[Official Music Video]"@.subrange(1, 22));
    } else if j == 8 {
        reveal_strlit("(Official Audio)");
        assert(ds[8] == "(Official Audio)"@);
        assert(ds[8].drop_first() =~= "(Official Audio)"@.subrange(1, 16));
    } else if j == 9 {
        reveal_strlit("[Official Audio]");
        assert(ds[9] == "[Official Audio]"@);
        assert(ds[9].drop_first() =~= "[Official Audio]"@.subrange(1, 16));
    } else if j == 10 {
        reveal_strlit("(Audio)");
        assert(ds[10] == "(Audio)"@);
        assert(ds[10].drop_first() =~= "(Audio)"@.subrange(1, 7));
    } else if j == 11 {
        reveal_strlit("[Audio]");
        assert(ds[11] == "[Audio]"@);
        assert(ds[11].drop_first() =~= "[Audio]"@.subrange(1, 7));
    } else if j == 12 {
        reveal_strlit("(Live)");
        assert(ds[12] == "(Live)"@);
        assert(ds[12].drop_first() =~= "(Live)"@.subrange(1, 6));
    } else if j == 13 {
        reveal_strlit("[Live]");
        assert(ds[13] == "[Live]"@);
        assert(ds[13].drop_first() =~= "[Live]"@.subrange(1, 6));
    }
}

proof fn lemma_decorations_distinct(j: int, k: int)
    requires
        0 <= j < 14,
        0 <= k < 14,
        j != k,
    ensures
        not_prefix_of(title_decorations()[j], title_decorations()[k]),
{
    let ds = title_decorations();
    if j == 0 {
        reveal_strlit("(Official Video)");
        assert(ds[0] == "(Official Video)"@);
        if k == 1 {
            reveal_strlit("[Official Video]");
            assert(ds[1] == "[Official Video]"@);
            assert(ds[1].subrange(0, ds[0].len() as int)[0] != ds[0][0]);
        } else if k == 2 {
            reveal_strlit("(Lyric Video)");
            assert(ds[2] == "(Lyric Video)"@);
        } else if k == 3 {
            reveal_strlit("[Lyric Video]");
            assert(ds[3] == "[Lyric Video]"@);
        } else if k == 4 {
            reveal_strlit("(Lyrics)");
            assert(ds[4] == "(Lyrics)"@);
        } else if k == 5 {
            reveal_strlit("[Lyrics]");
            assert(ds[5] == "[Lyrics]"@);
        } else if k == 6 {
            reveal_strlit("(Official Music Video)");
            assert(ds[6] == "(Official Music Video)"@);
            assert(ds[6].subrange(0, ds[0].len() as int)[10] != ds[0][10]);
        } else if k == 7 {
            reveal_strlit("[Official Music Video]");
            assert(ds[7] == "[Official Music Video]"@);
            assert(ds[7].subrange(0, ds[0].len() as int)[0] != ds[0][0]);
        } else if k == 8 {
            reveal_strlit("(Official Audio)");
            assert(ds[8] == "(Official Audio)"@);
            assert(ds[8].subrange(0, ds[0].len() as int)[10] != ds[0][10]);
        } else if k == 9 {
            reveal_strlit("[Official Audio]");
            assert(ds[9] == "[Official Audio]"@);
            assert(ds[9].subrange(0, ds[0].len() as int)[0] != ds[0][0]);
        } else if k == 10 {
            reveal_strlit("(Audio)");
            assert(ds[10] == "(Audio)"@);
        } else if k == 11 {
            reveal_strlit("[Audio]");
            assert(ds[11] == "[Audio]"@);
        } else if k == 12 {
            reveal_strlit("(Live)");
            assert(ds[12] == "(Live)"@);
        } else if k == 13 {
            reveal_strlit("[Live]");
            assert(ds[13] == "[Live]"@);
        }
    } else if j == 1 {
        reveal_strlit("[Official Video]");
        assert(ds[1] == "[Official Video]"@);
        if k == 0 {
            reveal_strlit("(Official Video)");
            assert(ds[0] == "(Official Video)"@);
            assert(ds[0].subrange(0, ds[1].len() as int)[0] != ds[1][0]);
        } else if k == 2 {
            reveal_strlit("(Lyric Video)");
            assert(ds[2] == "(Lyric Video)"@);
        } else if k == 3 {
            reveal_strlit("[Lyric Video]");
            assert(ds[3] == "[Lyric Video]"@);
        } else if k == 4 {
            reveal_strlit("(Lyrics)");
            assert(ds[4] == "(Lyrics)"@);
        } else if k == 5 {
            reveal_strlit("[Lyrics]");
            assert(ds[5] == "[Lyrics]"@);
        } else if k == 6 {
            reveal_strlit("(Official Music Video)");
            assert(ds[6] == "(Official Music Video)"@);
            assert(ds[6].subrange(0, ds[1].len() as int)[0] != ds[1][0]);
        } else if k == 7 {
            reveal_strlit("[Official Music Video]");
            assert(ds[7] == "[Official Music Video]"@);
            assert(ds[7].subrange(0, ds[1].len() as int)[10] != ds[1][10]);
        } else if k == 8 {
            reveal_strlit("(Official Audio)");
            assert(ds[8] == "(Official Audio)"@);
            assert(ds[8].subrange(0, ds[1].len() as int)[0] != ds[1][0]);
        } else if k == 9 {
            reveal_strlit("[Official Audio]");
            assert(ds[9] == "[Official Audio]"@);
            assert(ds[9].subrange(0, ds[1].len() as int)[10] != ds[1][10]);
        } else if k == 10 {
            reveal_strlit("(Audio)");
            assert(ds[10] == "(Audio)"@);
        } else if k == 11 {
            reveal_strlit("[Audio]");
            assert(ds[11] == "[Audio]"@);
        } else if k == 12 {
            reveal_strlit("(Live)");
            assert(ds[12] == "(Live)"@);
        } else if k == 13 {
            reveal_strlit("[Live]");
            assert(ds[13] == "[Live]"@);
        }
    } else if j == 2 {
        reveal_strlit("(Lyric Video)");
        assert(ds[2] == "(Lyric Video)"@);
        if k == 0 {
            reveal_strlit("(Official Video)");
            assert(ds[0] == "(Official Video)"@);
            assert(ds[0].subrange(0, ds[2].len() as int)[1] != ds[2][1]);
        } else if k == 1 {
            reveal_strlit("[Official Video]");
            assert(ds[1] == "[Official Video]"@);
            assert(ds[1].subrange(0, ds[2].len() as int)[0] != ds[2][0]);
        } else if k == 3 {
            reveal_strlit("[Lyric Video]");
            assert(ds[3] == "[Lyric Video]"@);
            assert(ds[3].subrange(0, ds[2].len() as int)[0] != ds[2][0]);
        } else if k == 4 {
            reveal_strlit("(Lyrics)");
            assert(ds[4] == "(Lyrics)"@);
        } else if k == 5 {
            reveal_strlit("[Lyrics]");
            assert(ds[5] == "[Lyrics]"@);
        } else if k == 6 {
            reveal_strlit("(Official Music Video)");
            assert(ds[6] == "(Official Music Video)"@);
            assert(ds[6].subrange(0, ds[2].len() as int)[1] != ds[2][1]);
        } else if k == 7 {
            reveal_strlit("[Official Music Video]");
            assert(ds[7] == "[Official Music Video]"@);
            assert(ds[7].subrange(0, ds[2].len() as int)[0] != ds[2][0]);
        } else if k == 8 {
            reveal_strlit("(Official Audio)");
            assert(ds[8] == "(Official Audio)"@);
            assert(ds[8].subrange(0, ds[2].len() as int)[1] != ds[2][1]);
        } else if k == 9 {
            reveal_strlit("[Official Audio]");
            assert(ds[9] == "[Official Audio]"@);
            assert(ds[9].subrange(0, ds[2].len() as int)[0] != ds[2][0]);
        } else if k == 10 {
            reveal_strlit("(Audio)");
            assert(ds[10] == "(Audio)"@);
        } else if k == 11 {
            reveal_strlit("[Audio]");
            assert(ds[11] == "[Audio]"@);
        } else if k == 12 {
            reveal_strlit("(Live)");
            assert(ds[12] == "(Live)"@);
        } else if k == 13 {
            reveal_strlit("[Live]");
            assert(ds[13] == "[Live]"@);
        }
    } else if j == 3 {
        reveal_strlit("[Lyric Video]");
        assert(ds[3] == "[Lyric Video]"@);
        if k == 0 {
            reveal_strlit("(Official Video)");
            assert(ds[0] == "(Official Video)"@);
            assert(ds[0].subrange(0, ds[3].len() as int)[0] != ds[3][0]);
        } else if k == 1 {
            reveal_strlit("[Official Video]");
            assert(ds[1] == "[Official Video]"@);
            assert(ds[1].subrange(0, ds[3].len() as int)[1] != ds[3][1]);
        } else if k == 2 {
            reveal_strlit("(Lyric Video)");
            assert(ds[2] == "(Lyric Video)"@);
            assert(ds[2].subrange(0, ds[3].len() as int)[0] != ds[3][0]);
        } else if k == 4 {
            reveal_strlit("(Lyrics)");
            assert(ds[4] == "(Lyrics)"@);
        } else if k == 5 {
            reveal_strlit("[Lyrics]");
            assert(ds[5] == "[Lyrics]"@);
        } else if k == 6 {
            reveal_strlit("(Official Music Video)");
            assert(ds[6] == "(Official Music Video)"@);
            assert(ds[6].subrange(0, ds[3].len() as int)[0] != ds[3][0]);
        } else if k == 7 {
            reveal_strlit("[Official Music Video]");
            assert(ds[7] == "[Official Music Video]"@);
            assert(ds[7].subrange(0, ds[3].len() as int)[1] != ds[3][1]);
        } else if k == 8 {
            reveal_strlit("(Official Audio)");
            assert(ds[8] == "(Official Audio)"@);
            assert(ds[8].subrange(0, ds[3].len() as int)[0] != ds[3][0]);
        } else if k == 9 {
            reveal_strlit("[Official Audio]");
            assert(ds[9] == "[Official Audio]"@);
            assert(ds[9].subrange(0, ds[3].len() as int)[1] != ds[3][1]);
        } else if k == 10 {
            reveal_strlit("(Audio)");
            assert(ds[10] == "(Audio)"@);
        } else if k == 11 {
            reveal_strlit("[Audio]");
            assert(ds[11] == "[Audio]"@);
        } else if k == 12 {
            reveal_strlit("(Live)");
            assert(ds[12] == "(Live)"@);
        } else if k == 13 {
            reveal_strlit("[Live]");
            assert(ds[13] == "[Live]"@);
        }
    } else if j == 4 {
        reveal_strlit("(Lyrics)");
        assert(ds[4] == "(Lyrics)"@);
        if k == 0 {
            reveal_strlit("(Official Video)");
            assert(ds[0] == "(Official Video)"@);
            assert(ds[0].subrange(0, ds[4].len() as int)[1] != ds[4][1]);
        } else if k == 1 {
            reveal_strlit("[Official Video]");
            assert(ds[1] == "[Official Video]"@);
            assert(ds[1].subrange(0, ds[4].len() as int)[0] != ds[4][0]);
        } else if k == 2 {
            reveal_strlit("(Lyric Video)");
            assert(ds[2] == "(Lyric Video)"@);
            assert(ds[2].subrange(0, ds[4].len() as int)[6] != ds[4][6]);
        } else if k == 3 {
            reveal_strlit("[Lyric Video]");
            assert(ds[3] == "[Lyric Video]"@);
            assert(ds[3].subrange(0, ds[4].len() as int)[0] != ds[4][0]);
        } else if k == 5 {
            reveal_strlit("[Lyrics]");
            assert(ds[5] == "[Lyrics]"@);
            assert(ds[5].subrange(0, ds[4].len() as int)[0] != ds[4][0]);
        } else if k == 6 {
            reveal_strlit("(Official Music Video)");
            assert(ds[6] == "(Official Music Video)"@);
            assert(ds[6].subrange(0, ds[4].len() as int)[1] != ds[4][1]);
        } else if k == 7 {
            reveal_strlit("[Official Music Video]");
            assert(ds[7] == "[Official Music Video]"@);
            assert(ds[7].subrange(0, ds[4].len() as int)[0] != ds[4][0]);
        } else if k == 8 {
            reveal_strlit("(Official Audio)");
            assert(ds[8] == "(Official Audio)"@);
            assert(ds[8].subrange(0, ds[4].len() as int)[1] != ds[4][1]);
        } else if k == 9 {
            reveal_strlit("[Official Audio]");
            assert(ds[9] == "[Official Audio]"@);
            assert(ds[9].subrange(0, ds[4].len() as int)[0] != ds[4][0]);
        } else if k == 10 {
            reveal_strlit("(Audio)");
            assert(ds[10] == "(Audio)"@);
        } else if k == 11 {
            reveal_strlit("[Audio]");
            assert(ds[11] == "[Audio]"@);
        } else if k == 12 {
            reveal_strlit("(Live)");
            assert(ds[12] == "(Live)"@);
        } else if k == 13 {
            reveal_strlit("[Live]");
            assert(ds[13] == "[Live]"@);
        }
    } else if j == 5 {
        reveal_strlit("[Lyrics]");
        assert(ds[5] == "[Lyrics]"@);
        if k == 0 {
            reveal_strlit("(Official Video)");
            assert(ds[0] == "(Official Video)"@);
            assert(ds[0].subrange(0, ds[5].len() as int)[0] != ds[5][0]);
        } else if k == 1 {
            reveal_strlit("[Official Video]");
            assert(ds[1] == "[Official Video]"@);
            assert(ds[1].subrange(0, ds[5].len() as int)[1] != ds[5][1]);
        } else if k == 2 {
            reveal_strlit("(Lyric Video)");
            assert(ds[2] == "(Lyric Video)"@);
            assert(ds[2].subrange(0, ds[5].len() as int)[0] != ds[5][0]);
        } else if k == 3 {
            reveal_strlit("[Lyric Video]");
            assert(ds[3] == "[Lyric Video]"@);
            assert(ds[3].subrange(0, ds[5].len() as int)[6] != ds[5][6]);
        } else if k == 4 {
            reveal_strlit("(Lyrics)");
            assert(ds[4] == "(Lyrics)"@);
            assert(ds[4].subrange(0, ds[5].len() as int)[0] != ds[5][0]);
        } else if k == 6 {
            reveal_strlit("(Official Music Video)");
            assert(ds[6] == "(Official Music Video)"@);
            assert(ds[6].subrange(0, ds[5].len() as int)[0] != ds[5][0]);
        } else if k == 7 {
            reveal_strlit("[Official Music Video]");
            assert(ds[7] == "[Official Music Video]"@);
            assert(ds[7].subrange(0, ds[5].len() as int)[1] != ds[5][1]);
        } else if k == 8 {
            reveal_strlit("(Official Audio)");
            assert(ds[8] == "(Official Audio)"@);
            assert(ds[8].subrange(0, ds[5].len() as int)[0] != ds[5][0]);
        } else if k == 9 {
            reveal_strlit("[Official Audio]");
            assert(ds[9] == "[Official Audio]"@);
            assert(ds[9].subrange(0, ds[5].len() as int)[1] != ds[5][1]);
        } else if k == 10 {
            reveal_strlit("(Audio)");
            assert(ds[10] == "(Audio)"@);
        } else if k == 11 {
            reveal_strlit("[Audio]");
            assert(ds[11] == "[Audio]"@);
        } else if k == 12 {
            reveal_strlit("(Live)");
            assert(ds[12] == "(Live)"@);
        } else if k == 13 {
            reveal_strlit("[Live]");
            assert(ds[13] == "[Live]"@);
        }
    } else if j == 6 {
        reveal_strlit("(Official Music Video)");
        assert(ds[6] == "(Official Music Video)"@);
        if k == 0 {
            reveal_strlit("(Official Video)");
            assert(ds[0] == "(Official Video)"@);
        } else if k == 1 {
            reveal_strlit("[Official Video]");
            assert(ds[1] == "[Official Video]"@);
        } else if k == 2 {
            reveal_strlit("(Lyric Video)");
            assert(ds[2] == "(Lyric Video)"@);
        } else if k == 3 {
            reveal_strlit("[Lyric Video]");
            assert(ds[3] == "[Lyric Video]"@);
        } else if k == 4 {
            reveal_strlit("(Lyrics)");
            assert(ds[4] == "(Lyrics)"@);
        } else if k == 5 {
            reveal_strlit("[Lyrics]");
            assert(ds[5] == "[Lyrics]"@);
        } else if k == 7 {
            reveal_strlit("[Official Music Video]");
            assert(ds[7] == "[Official Music Video]"@);
            assert(ds[7].subrange(0, ds[6].len() as int)[0] != ds[6][0]);
        } else if k == 8 {
            reveal_strlit("(Official Audio)");
            assert(ds[8] == "(Official Audio)"@);
        } else if k == 9 {
            reveal_strlit("[Official Audio]");
            assert(ds[9] == "[Official Audio]"@);
        } else if k == 10 {
            reveal_strlit("(Audio)");
            assert(ds[10] == "(Audio)"@);
        } else if k == 11 {
            reveal_strlit("[Audio]");
            assert(ds[11] == "[Audio]"@);
        } else if k == 12 {
            reveal_strlit("(Live)");
            assert(ds[12] == "(Live)"@);
        } else if k == 13 {
            reveal_strlit("[Live]");
            assert(ds[13] == "[Live]"@);
        }
    } else if j == 7 {
        reveal_strlit("[Official Music Video]");
        assert(ds[7] == "[Official Music Video]"@);
        if k == 0 {
            reveal_strlit("(Official Video)");
            assert(ds[0] == "(Official Video)"@);
        } else if k == 1 {
            reveal_strlit("[Official Video]");
            assert(ds[1] == "[Official Video]"@);
        } else if k == 2 {
            reveal_strlit("(Lyric Video)");
            assert(ds[2] == "(Lyric Video)"@);
        } else if k == 3 {
            reveal_strlit("[Lyric Video]");
            assert(ds[3] == "[Lyric Video]"@);
        } else if k == 4 {
            reveal_strlit("(Lyrics)");
            assert(ds[4] == "(Lyrics)"@);
        } else if k == 5 {
            reveal_strlit("[Lyrics]");
            assert(ds[5] == "[Lyrics]"@);
        } else if k == 6 {
            reveal_strlit("(Official Music Video)");
            assert(ds[6] == "(Official Music Video)"@);
            assert(ds[6].subrange(0, ds[7].len() as int)[0] != ds[7][0]);
        } else if k == 8 {
            reveal_strlit("(Official Audio)");
            assert(ds[8] == "(Official Audio)"@);
        } else if k == 9 {
            reveal_strlit("[Official Audio]");
            assert(ds[9] == "[Official Audio]"@);
        } else if k == 10 {
            reveal_strlit("(Audio)");
            assert(ds[10] == "(Audio)"@);
        } else if k == 11 {
            reveal_strlit("[Audio]");
            assert(ds[11] == "[Audio]"@);
        } else if k == 12 {
            reveal_strlit("(Live)");
            assert(ds[12] == "(Live)"@);
        } else if k == 13 {
            reveal_strlit("[Live]");
            assert(ds[13] == "[Live]"@);
        }
    } else if j == 8 {
        reveal_strlit("(Official Audio)");
        assert(ds[8] == "(Official Audio)"@);
        if k == 0 {
            reveal_strlit("(Official Video)");
            assert(ds[0] == "(Official Video)"@);
            assert(ds[0].subrange(0, ds[8].len() as int)[10] != ds[8][10]);
        } else if k == 1 {
            reveal_strlit("[Official Video]");
            assert(ds[1] == "[Official Video]"@);
            assert(ds[1].subrange(0, ds[8].len() as int)[0] != ds[8][0]);
        } else if k == 2 {
            reveal_strlit("(Lyric Video)");
            assert(ds[2] == "(Lyric Video)"@);
        } else if k == 3 {
            reveal_strlit("[Lyric Video]");
            assert(ds[3] == "[Lyric Video]"@);
        } else if k == 4 {
            reveal_strlit("(Lyrics)");
            assert(ds[4] == "(Lyrics)"@);
        } else if k == 5 {
            reveal_strlit("[Lyrics]");
            assert(ds[5] == "[Lyrics]"@);
        } else if k == 6 {
            reveal_strlit("(Official Music Video)");
            assert(ds[6] == "(Official Music Video)"@);
            assert(ds[6].subrange(0, ds[8].len() as int)[10] != ds[8][10]);
        } else if k == 7 {
            reveal_strlit("[Official Music Video]");
            assert(ds[7] == "[Official Music Video]"@);
            assert(ds[7].subrange(0, ds[8].len() as int)[0] != ds[8][0]);
        } else if k == 9 {
            reveal_strlit("[Official Audio]");
            assert(ds[9] == "[Official Audio]"@);
            assert(ds[9].subrange(0, ds[8].len() as int)[0] != ds[8][0]);
        } else if k == 10 {
            reveal_strlit("(Audio)");
            assert(ds[10] == "(Audio)"@);
        } else if k == 11 {
            reveal_strlit("[Audio]");
            assert(ds[11] == "[Audio]"@);
        } else if k == 12 {
            reveal_strlit("(Live)");
            assert(ds[12] == "(Live)"@);
        } else if k == 13 {
            reveal_strlit("[Live]");
            assert(ds[13] == "[Live]"@);
        }
    } else if j == 9 {
        reveal_strlit("[Official Audio]");
        assert(ds[9] == "[Official Audio]"@);
        if k == 0 {
            reveal_strlit("(Official Video)");
            assert(ds[0] == "(Official Video)"@);
            assert(ds[0].subrange(0, ds[9].len() as int)[0] != ds[9][0]);
        } else if k == 1 {
            reveal_strlit("[Official Video]");
            assert(ds[1] == "[Official Video]"@);
            assert(ds[1].subrange(0, ds[9].len() as int)[10] != ds[9][10]);
        } else if k == 2 {
            reveal_strlit("(Lyric Video)");
            assert(ds[2] == "(Lyric Video)"@);
        } else if k == 3 {
            reveal_strlit("[Lyric Video]");
            assert(ds[3] == "[Lyric Video]"@);
        } else if k == 4 {
            reveal_strlit("(Lyrics)");
            assert(ds[4] == "(Lyrics)"@);
        } else if k == 5 {
            reveal_strlit("[Lyrics]");
            assert(ds[5] == "[Lyrics]"@);
        } else if k == 6 {
            reveal_strlit("(Official Music Video)");
            assert(ds[6] == "(Official Music Video)"@);
            assert(ds[6].subrange(0, ds[9].len() as int)[0] != ds[9][0]);
        } else if k == 7 {
            reveal_strlit("[Official Music Video]");
            assert(ds[7] == "[Official Music Video]"@);
            assert(ds[7].subrange(0, ds[9].len() as int)[10] != ds[9][10]);
        } else if k == 8 {
            reveal_strlit("(Official Audio)");
            assert(ds[8] == "(Official Audio)"@);
            assert(ds[8].subrange(0, ds[9].len() as int)[0] != ds[9][0]);
        } else if k == 10 {
            reveal_strlit("(Audio)");
            assert(ds[10] == "(Audio)"@);
        } else if k == 11 {
            reveal_strlit("[Audio]");
            assert(ds[11] == "[Audio]"@);
        } else if k == 12 {
            reveal_strlit("(Live)");
            assert(ds[12] == "(Live)"@);
        } else if k == 13 {
            reveal_strlit("[Live]");
            assert(ds[13] == "[Live]"@);
        }
    } else if j == 10 {
        reveal_strlit("(Audio)");
        assert(ds[10] == "(Audio)"@);
        if k == 0 {
            reveal_strlit("(Official Video)");
            assert(ds[0] == "(Official Video)"@);
            assert(ds[0].subrange(0, ds[10].len() as int)[1] != ds[10][1]);
        } else if k == 1 {
            reveal_strlit("[Official Video]");
            assert(ds[1] == "[Official Video]"@);
            assert(ds[1].subrange(0, ds[10].len() as int)[0] != ds[10][0]);
        } else if k == 2 {
            reveal_strlit("(Lyric Video)");
            assert(ds[2] == "(Lyric Video)"@);
            assert(ds[2].subrange(0, ds[10].len() as int)[1] != ds[10][1]);
        } else if k == 3 {
            reveal_strlit("[Lyric Video]");
            assert(ds[3] == "[Lyric Video]"@);
            assert(ds[3].subrange(0, ds[10].len() as int)[0] != ds[10][0]);
        } else if k == 4 {
            reveal_strlit("(Lyrics)");
            assert(ds[4] == "(Lyrics)"@);
            assert(ds[4].subrange(0, ds[10].len() as int)[1] != ds[10][1]);
        } else if k == 5 {
            reveal_strlit("[Lyrics]");
            assert(ds[5] == "[Lyrics]"@);
            assert(ds[5].subrange(0, ds[10].len() as int)[0] != ds[10][0]);
        } else if k == 6 {
            reveal_strlit("(Official Music Video)");
            assert(ds[6] == "(Official Music Video)"@);
            assert(ds[6].subrange(0, ds[10].len() as int)[1] != ds[10][1]);
        } else if k == 7 {
            reveal_strlit("[Official Music Video]");
            assert(ds[7] == "[Official Music Video]"@);
            assert(ds[7].subrange(0, ds[10].len() as int)[0] != ds[10][0]);
        } else if k == 8 {
            reveal_strlit("(Official Audio)");
            assert(ds[8] == "(Official Audio)"@);
            assert(ds[8].subrange(0, ds[10].len() as int)[1] != ds[10][1]);
        } else if k == 9 {
            reveal_strlit("[Official Audio]");
            assert(ds[9] == "[Official Audio]"@);
            assert(ds[9].subrange(0, ds[10].len() as int)[0] != ds[10][0]);
        } else if k == 11 {
            reveal_strlit("[Audio]");
            assert(ds[11] == "[Audio]"@);
            assert(ds[11].subrange(0, ds[10].len() as int)[0] != ds[10][0]);
        } else if k == 12 {
            reveal_strlit("(Live)");
            assert(ds[12] == "(Live)"@);
        } else if k == 13 {
            reveal_strlit("[Live]");
            assert(ds[13] == "[Live]"@);
        }
    } else if j == 11 {
        reveal_strlit("[Audio]");
        assert(ds[11] == "[Audio]"@);
        if k == 0 {
            reveal_strlit("(Official Video)");
            assert(ds[0] == "(Official Video)"@);
            assert(ds[0].subrange(0, ds[11].len() as int)[0] != ds[11][0]);
        } else if k == 1 {
            reveal_strlit("[Official Video]");
            assert(ds[1] == "[Official Video]"@);
            assert(ds[1].subrange(0, ds[11].len() as int)[1] != ds[11][1]);
        } else if k == 2 {
            reveal_strlit("(Lyric Video)");
            assert(ds[2] == "(Lyric Video)"@);
            assert(ds[2].subrange(0, ds[11].len() as int)[0] != ds[11][0]);
        } else if k == 3 {
            reveal_strlit("[Lyric Video]");
            assert(ds[3] == "[Lyric Video]"@);
            assert(ds[3].subrange(0, ds[11].len() as int)[1] != ds[11][1]);
        } else if k == 4 {
            reveal_strlit("(Lyrics)");
            assert(ds[4] == "(Lyrics)"@);
            assert(ds[4].subrange(0, ds[11].len() as int)[0] != ds[11][0]);
        } else if k == 5 {
            reveal_strlit("[Lyrics]");
            assert(ds[5] == "[Lyrics]"@);
            assert(ds[5].subrange(0, ds[11].len() as int)[1] != ds[11][1]);
        } else if k == 6 {
            reveal_strlit("(Official Music Video)");
            assert(ds[6] == "(Official Music Video)"@);
            assert(ds[6].subrange(0, ds[11].len() as int)[0] != ds[11][0]);
        } else if k == 7 {
            reveal_strlit("[Official Music Video]");
            assert(ds[7] == "[Official Music Video]"@);
            assert(ds[7].subrange(0, ds[11].len() as int)[1] != ds[11][1]);
        } else if k == 8 {
            reveal_strlit("(Official Audio)");
            assert(ds[8] == "(Official Audio)"@);
            assert(ds[8].subrange(0, ds[11].len() as int)[0] != ds[11][0]);
        } else if k == 9 {
            reveal_strlit("[Official Audio]");
            assert(ds[9] == "[Official Audio]"@);
            assert(ds[9].subrange(0, ds[11].len() as int)[1] != ds[11][1]);
        } else if k == 10 {
            reveal_strlit("(Audio)");
            assert(ds[10] == "(Audio)"@);
            assert(ds[10].subrange(0, ds[11].len() as int)[0] != ds[11][0]);
        } else if k == 12 {
            reveal_strlit("(Live)");
            assert(ds[12] == "(Live)"@);
        } else if k == 13 {
            reveal_strlit("[Live]");
            assert(ds[13] == "[Live]"@);
        }
    } else if j == 12 {
        reveal_strlit("(Live)");
        assert(ds[12] == "(Live)"@);
        if k == 0 {
            reveal_strlit("(Official Video)");
            assert(ds[0] == "(Official Video)"@);
            assert(ds[0].subrange(0, ds[12].len() as int)[1] != ds[12][1]);
        } else if k == 1 {
            reveal_strlit("[Official Video]");
            assert(ds[1] == "[Official Video]"@);
            assert(ds[1].subrange(0, ds[12].len() as int)[0] != ds[12][0]);
        } else if k == 2 {
            reveal_strlit("(Lyric Video)");
            assert(ds[2] == "(Lyric Video)"@);
            assert(ds[2].subrange(0, ds[12].len() as int)[2] != ds[12][2]);
        } else if k == 3 {
            reveal_strlit("[Lyric Video]");
            assert(ds[3] == "[Lyric Video]"@);
            assert(ds[3].subrange(0, ds[12].len() as int)[0] != ds[12][0]);
        } else if k == 4 {
            reveal_strlit("(Lyrics)");
            assert(ds[4] == "(Lyrics)"@);
            assert(ds[4].subrange(0, ds[12].len() as int)[2] != ds[12][2]);
        } else if k == 5 {
            reveal_strlit("[Lyrics]");
            assert(ds[5] == "[Lyrics]"@);
            assert(ds[5].subrange(0, ds[12].len() as int)[0] != ds[12][0]);
        } else if k == 6 {
            reveal_strlit("(Official Music Video)");
            assert(ds[6] == "(Official Music Video)"@);
            assert(ds[6].subrange(0, ds[12].len() as int)[1] != ds[12][1]);
        } else if k == 7 {
            reveal_strlit("[Official Music Video]");
            assert(ds[7] == "[Official Music Video]"@);
            assert(ds[7].subrange(0, ds[12].len() as int)[0] != ds[12][0]);
        } else if k == 8 {
            reveal_strlit("(Official Audio)");
            assert(ds[8] == "(Official Audio)"@);
            assert(ds[8].subrange(0, ds[12].len() as int)[1] != ds[12][1]);
        } else if k == 9 {
            reveal_strlit("[Official Audio]");
            assert(ds[9] == "[Official Audio]"@);
            assert(ds[9].subrange(0, ds[12].len() as int)[0] != ds[12][0]);
        } else if k == 10 {
            reveal_strlit("(Audio)");
            assert(ds[10] == "(Audio)"@);
            assert(ds[10].subrange(0, ds[12].len() as int)[1] != ds[12][1]);
        } else if k == 11 {
            reveal_strlit("[Audio]");
            assert(ds[11] == "[Audio]"@);
            assert(ds[11].subrange(0, ds[12].len() as int)[0] != ds[12][0]);
        } else if k == 13 {
            reveal_strlit("[Live]");
            assert(ds[13] == "[Live]"@);
            assert(ds[13].subrange(0, ds[12].len() as int)[0] != ds[12][0]);
        }
    } else if j == 13 {
        reveal_strlit("[Live]");
        assert(ds[13] == "[Live]"@);
        if k == 0 {
            reveal_strlit("(Official Video)");
            assert(ds[0] == "(Official Video)"@);
            assert(ds[0].subrange(0, ds[13].len() as int)[0] != ds[13][0]);
        } else if k == 1 {
            reveal_strlit("[Official Video]");
            assert(ds[1] == "[Official Video]"@);
            assert(ds[1].subrange(0, ds[13].len() as int)[1] != ds[13][1]);
        } else if k == 2 {
            reveal_strlit("(Lyric Video)");
            assert(ds[2] == "(Lyric Video)"@);
            assert(ds[2].subrange(0, ds[13].len() as int)[0] != ds[13][0]);
        } else if k == 3 {
            reveal_strlit("[Lyric Video]");
            assert(ds[3] == "[Lyric Video]"@);
            assert(ds[3].subrange(0, ds[13].len() as int)[2] != ds[13][2]);
        } else if k == 4 {
            reveal_strlit("(Lyrics)");
            assert(ds[4] == "(Lyrics)"@);
            assert(ds[4].subrange(0, ds[13].len() as int)[0] != ds[13][0]);
        } else if k == 5 {
            reveal_strlit("[Lyrics]");
            assert(ds[5] == "[Lyrics]"@);
            assert(ds[5].subrange(0, ds[13].len() as int)[2] != ds[13][2]);
        } else if k == 6 {
            reveal_strlit("(Official Music Video)");
            assert(ds[6] == "(Official Music Video)"@);
            assert(ds[6].subrange(0, ds[13].len() as int)[0] != ds[13][0]);
        } else if k == 7 {
            reveal_strlit("[Official Music Video]");
            assert(ds[7] == "[Official Music Video]"@);
            assert(ds[7].subrange(0, ds[13].len() as int)[1] != ds[13][1]);
        } else if k == 8 {
            reveal_strlit("(Official Audio)");
            assert(ds[8] == "(Official Audio)"@);
            assert(ds[8].subrange(0, ds[13].len() as int)[0] != ds[13][0]);
        } else if k == 9 {
            reveal_strlit("[Official Audio]");
            assert(ds[9] == "[Official Audio]"@);
            assert(ds[9].subrange(0, ds[13].len() as int)[1] != ds[13][1]);
        } else if k == 10 {
            reveal_strlit("(Audio)");
            assert(ds[10] == "(Audio)"@);
            assert(ds[10].subrange(0, ds[13].len() as int)[0] != ds[13][0]);
        } else if k == 11 {
            reveal_strlit("[Audio]");
            assert(ds[11] == "[Audio]"@);
            assert(ds[11].subrange(0, ds[13].len() as int)[1] != ds[13][1]);
        } else if k == 12 {
            reveal_strlit("(Live)");
            assert(ds[12] == "(Live)"@);
            assert(ds[12].subrange(0, ds[13].len() as int)[0] != ds[13][0]);
        }
    }
}

proof fn lemma_find_from_none(s: Seq<char>, pat: Seq<char>, i: int, j: int)
    requires
        find_from(s, pat, i) is None,
        0 <= i <= j,
    ensures
        !occurs_at(s, pat, j),
    decreases j - i,
{
    if i < j && !(i + pat.len() > s.len()) && !occurs_at(s, pat, i) {
        lemma_find_from_none(s, pat, i + 1, j);
    }
}

/// Where `pat` occurs nowhere in `s`, replacing it changes nothing.
proof fn lemma_replace_absent(s: Seq<char>, pat: Seq<char>, rep: Seq<char>)
    requires
        pat.len() > 0,
        forall|i: int| !#[trigger] occurs_at(s, pat, i),
    ensures
        replace(s, pat, rep) == s,
    decreases s.len(),
{
    if s.len() >= pat.len() {
        assert(!occurs_at(s, pat, 0));
        let rest = s.drop_first();
        assert forall|i: int| !#[trigger] occurs_at(rest, pat, i) by {
            if occurs_at(rest, pat, i) {
                assert(s.subrange(i + 1, i + 1 + pat.len()) =~= rest.subrange(i, i + pat.len()));
                assert(occurs_at(s, pat, i + 1));
            }
        }
        lemma_replace_absent(rest, pat, rep);
        assert(seq![s[0]] + rest =~= s);
    }
}

/// A bracket-led pattern occurs nowhere in a bracket-free text.
proof fn lemma_replace_in_bracket_free(t: Seq<char>, pat: Seq<char>, rep: Seq<char>)
    requires
        bracket_free(t),
        bracket_led(pat),
    ensures
        replace(t, pat, rep) == t,
{
    assert forall|i: int| !#[trigger] occurs_at(t, pat, i) by {
        if occurs_at(t, pat, i) {
            assert(t.subrange(i, i + pat.len())[0] == t[i]);
        }
    }
    lemma_replace_absent(t, pat, rep);
}

/// A bracket-led pattern that does not start the decoration `d` occurs
/// nowhere in `t + d`.
proof fn lemma_replace_other(t: Seq<char>, d: Seq<char>, pat: Seq<char>, rep: Seq<char>)
    requires
        bracket_free(t),
        bracket_led(d),
        bracket_led(pat),
        not_prefix_of(pat, d),
    ensures
        replace(t + d, pat, rep) == t + d,
{
    let s = t + d;
    assert forall|i: int| !#[trigger] occurs_at(s, pat, i) by {
        if occurs_at(s, pat, i) {
            assert(s.subrange(i, i + pat.len())[0] == s[i]);
            if i < t.len() {
                assert(s[i] == t[i]);
            } else if i > t.len() {
                assert(s[i] == d.drop_first()[i - t.len() - 1]);
            } else {
                assert(d.subrange(0, pat.len() as int) =~= s.subrange(i, i + pat.len()));
            }
        }
    }
    lemma_replace_absent(s, pat, rep);
}

/// Replacing the decoration `d` in `t + d` leaves `t` followed by the
/// replacement.
proof fn lemma_replace_own(t: Seq<char>, d: Seq<char>, rep: Seq<char>)
    requires
        bracket_free(t),
        bracket_led(d),
    ensures
        replace(t + d, d, rep) == t + rep,
    decreases t.len(),
{
    let s = t + d;
    if t.len() == 0 {
        assert(s =~= d);
        assert(s.subrange(0, d.len() as int) =~= d);
        assert(s.subrange(d.len() as int, s.len() as int) =~= Seq::<char>::empty());
        assert(replace(Seq::<char>::empty(), d, rep) == Seq::<char>::empty());
        assert(t + rep =~= rep);
    } else {
        assert(s.subrange(0, d.len() as int)[0] == t[0]);
        assert(!is_bracket(t[0]));
        assert(s.subrange(0, d.len() as int) != d);
        let t1 = t.drop_first();
        assert forall|i: int| 0 <= i < t1.len() implies !is_bracket(#[trigger] t1[i]) by {
            assert(t1[i] == t[i + 1]);
        }
        lemma_replace_own(t1, d, rep);
        assert(s.drop_first() =~= t1 + d);
        assert(seq![s[0]] + (t1 + rep) =~= t + rep);
    }
}

/// What the title is before the `j`-th decoration is removed, when it was
/// `t` followed by the `k`-th decoration.
spec fn stage(t: Seq<char>, k: int, j: int) -> Seq<char> {
    if j <= k {
        t + title_decorations()[k]
    } else {
        t
    }
}

proof fn lemma_stage(t: Seq<char>, k: int, j: int)
    requires
        bracket_free(t),
        0 <= k < 14,
        0 <= j < 14,
    ensures
        replace(stage(t, k, j), title_decorations()[j], Seq::<char>::empty()) == stage(t, k, j + 1),
{
    let ds = title_decorations();
    let e = Seq::<char>::empty();
    lemma_decoration_shape(j);
    lemma_decoration_shape(k);
    if j < k {
        lemma_decorations_distinct(j, k);
        lemma_replace_other(t, ds[k], ds[j], e);
    } else if j == k {
        lemma_replace_own(t, ds[k], e);
        assert(t + e =~= t);
    } else {
        lemma_replace_in_bracket_free(t, ds[j], e);
    }
}

/// A title made of some text and one of the listed decorations is cleaned
/// down to the text, trimmed and with "ft." spelled "feat.", when the text
/// holds no opening bracket and no " - "; the artist is kept.  Where the
/// text holds no "ft." either, the cleaned title is the trimmed text.
pub proof fn listed_decoration_is_removed(artist: Seq<char>, t: Seq<char>, k: int)
    requires
        0 <= k < 14,
        bracket_free(t),
        !contains(t, " - "@),
    ensures
        title_decorations().len() == 14,
        cleaned_metadata(artist, t + title_decorations()[k]) == (
            artist,
            trim(replace(t, "ft."@, "feat."@)),
        ),
        !contains(t, "ft."@) ==> cleaned_metadata(artist, t + title_decorations()[k]) == (
            artist,
            trim(t),
        ),
{
    let ds = title_decorations();
    let e = Seq::<char>::empty();
    let title = t + ds[k];
    lemma_decoration_shape(k);
    lemma_stage(t, k, 0);
    lemma_stage(t, k, 1);
    lemma_stage(t, k, 2);
    lemma_stage(t, k, 3);
    lemma_stage(t, k, 4);
    lemma_stage(t, k, 5);
    lemma_stage(t, k, 6);
    lemma_stage(t, k, 7);
    lemma_stage(t, k, 8);
    lemma_stage(t, k, 9);
    lemma_stage(t, k, 10);
    lemma_stage(t, k, 11);
    lemma_stage(t, k, 12);
    lemma_stage(t, k, 13);
    assert(stage(t, k, 0) == title);
    assert(stage(t, k, 14) == t);
    assert(undecorated(title) == replace(t, "ft."@, "feat."@));
    if !contains(t, "ft."@) {
        reveal_strlit("ft.");
        assert forall|i: int| !#[trigger] occurs_at(t, "ft."@, i) by {
            if 0 <= i {
                lemma_find_from_none(t, "ft."@, 0, i);
            }
        }
        lemma_replace_absent(t, "ft."@, "feat."@);
    }
    // No " - " in the title: it is not in `t`, and the decoration holds no '-'.
    reveal_strlit(" - ");
    let sep = " - "@;
    assert forall|i: int| !#[trigger] occurs_at(title, sep, i) by {
        if occurs_at(title, sep, i) {
            assert(title.subrange(i, i + 3)[1] == title[i + 1]);
            assert(title.subrange(i, i + 3)[2] == title[i + 2]);
            if i + 3 <= t.len() {
                assert(t.subrange(i, i + 3) =~= title.subrange(i, i + 3));
                lemma_find_from_none(t, sep, 0, i);
            } else if i + 1 < t.len() {
                assert(title[i + 2] == ds[k][0]);
            } else {
                assert(title[i + 1] == ds[k][i + 1 - t.len()]);
            }
        }
    }
    lemma_find_none_of_absent(title, sep, 0);
}

proof fn lemma_find_none_of_absent(s: Seq<char>, pat: Seq<char>, i: int)
    requires
        forall|j: int| !#[trigger] occurs_at(s, pat, j),
    ensures
        find_from(s, pat, i) is None,
    decreases s.len() + 1 - i,
{
    if !(i < 0 || i + pat.len() > s.len()) {
        assert(!occurs_at(s, pat, i));
        lemma_find_none_of_absent(s, pat, i + 1);
    }
}

} // verus!
