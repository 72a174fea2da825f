//! Looking lyrics up on lrclib: the search URLs, decoding the answers, and
//! choosing what to show from them.
use vstd::prelude::*;
use crate::text::{chars_of, extend_str, string_of};

verus! {

// ----------------------------------------------------------------------------
// URL encoding and search queries
// ----------------------------------------------------------------------------

/// What `urlencode` writes for one character.
pub open spec fn url_escape(c: char) -> Seq<char> {
    if c == ' ' {
        seq!['%', '2', '0']
    } else if c == '&' {
        seq!['%', '2', '6']
    } else if c == '+' {
        seq!['%', '2', 'B']
    } else if c == '#' {
        seq!['%', '2', '3']
    } else if c == '?' {
        seq!['%', '3', 'F']
    } else {
        seq![c]
    }
}

/// Every character of `s` in turn, escaped by `url_escape`.
pub open spec fn url_encoded(s: Seq<char>) -> Seq<char>
    decreases s.len(),
{
    if s.len() == 0 {
        Seq::empty()
    } else {
        url_encoded(s.drop_last()) + url_escape(s.last())
    }
}

fn push_url_encoded(out: &mut Vec<char>, s: &str)
    ensures
        final(out)@ == old(out)@ + url_encoded(s@),
{
    let cs = chars_of(s);
    let mut i: usize = 0;
    while i < cs.len()
        invariant
            i <= cs.len(),
            cs@ == s@,
            out@ == old(out)@ + url_encoded(cs@.take(i as int)),
        decreases cs.len() - i,
    {
        let c = cs[i];
        let ghost before = out@;
        if c == ' ' {
            out.push('%');
            out.push('2');
            out.push('0');
        } else if c == '&' {
            out.push('%');
            out.push('2');
            out.push('6');
        } else if c == '+' {
            out.push('%');
            out.push('2');
            out.push('B');
        } else if c == '#' {
            out.push('%');
            out.push('2');
            out.push('3');
        } else if c == '?' {
            out.push('%');
            out.push('3');
            out.push('F');
        } else {
            out.push(c);
        }
        assert(out@ =~= before + url_escape(c));
        assert(cs@.take(i + 1).drop_last() =~= cs@.take(i as int));
        assert(out@ =~= old(out)@ + url_encoded(cs@.take(i + 1)));
        i += 1;
    }
    assert(cs@.take(cs.len() as int) =~= cs@);
}

/// Escapes the characters of `s` that would break a query string: space, `&`,
/// `+`, `#` and `?`.
pub fn urlencode(s: &str) -> (out: String)
    ensures
        out@ == url_encoded(s@),
{
    let mut out: Vec<char> = Vec::new();
    push_url_encoded(&mut out, s);
    assert(out@ =~= url_encoded(s@));
    string_of(&out)
}

/// The three lrclib searches, most specific first: by artist and track name,
/// by both as free text, and by the title alone.
pub open spec fn search_urls(artist: Seq<char>, title: Seq<char>) -> Seq<Seq<char>> {
    let base = "https://lrclib.net/api/search?"@;
    seq![
        base + "artist_name="@ + url_encoded(artist) + "&track_name="@ + url_encoded(title),
        base + "q="@ + url_encoded(artist) + "+"@ + url_encoded(title),
        base + "q="@ + url_encoded(title),
    ]
}

/// Builds the lrclib search URLs for a song.
pub fn lyrics_search_urls(artist: &str, title: &str) -> (urls: Vec<String>)
    ensures
        urls.len() == 3,
        forall|i: int| 0 <= i < 3 ==> #[trigger] urls@[i]@ == search_urls(artist@, title@)[i],
{
    let mut u0: Vec<char> = Vec::new();
    extend_str(&mut u0, "https://lrclib.net/api/search?");
    extend_str(&mut u0, "artist_name=");
    push_url_encoded(&mut u0, artist);
    extend_str(&mut u0, "&track_name=");
    push_url_encoded(&mut u0, title);
    let mut u1: Vec<char> = Vec::new();
    extend_str(&mut u1, "https://lrclib.net/api/search?");
    extend_str(&mut u1, "q=");
    push_url_encoded(&mut u1, artist);
    extend_str(&mut u1, "+");
    push_url_encoded(&mut u1, title);
    let mut u2: Vec<char> = Vec::new();
    extend_str(&mut u2, "https://lrclib.net/api/search?");
    extend_str(&mut u2, "q=");
    push_url_encoded(&mut u2, title);
    let mut urls: Vec<String> = Vec::new();
    urls.push(string_of(&u0));
    urls.push(string_of(&u1));
    urls.push(string_of(&u2));
    let ghost want = search_urls(artist@, title@);
    assert(urls@[0]@ =~= want[0]);
    assert(urls@[1]@ =~= want[1]);
    assert(urls@[2]@ =~= want[2]);
    urls
}

// ----------------------------------------------------------------------------
// Search results
// ----------------------------------------------------------------------------

/// A text field as a sequence of characters, where present.
pub open spec fn opt_text(o: Option<String>) -> Option<Seq<char>> {
    match o {
        Some(s) => Some(s@),
        None => None,
    }
}

/// The lyrics fields of one lrclib search result, where they are strings.
pub struct TrackLyrics {
    pub synced: Option<String>,
    pub plain: Option<String>,
}

impl TrackLyrics {
    pub open spec fn view(&self) -> (Option<Seq<char>>, Option<Seq<char>>) {
        (opt_text(self.synced), opt_text(self.plain))
    }
}

/// The results of one search, as (synced, plain) fields.
pub open spec fn tracks_view(v: Seq<TrackLyrics>) -> Seq<(Option<Seq<char>>, Option<Seq<char>>)> {
    v.map_values(|t: TrackLyrics| t.view())
}

/// The results of several searches.
pub open spec fn responses_view(r: Seq<Vec<TrackLyrics>>) -> Seq<
    Seq<(Option<Seq<char>>, Option<Seq<char>>)>,
> {
    r.map_values(|v: Vec<TrackLyrics>| tracks_view(v@))
}

/// The (`syncedLyrics`, `plainLyrics`) string fields of each element of the
/// JSON array in `body`, as `serde_json` reads them; `None` when `body` is not
/// a JSON array.
pub uninterp spec fn lrclib_tracks(body: Seq<u8>) -> Option<
    Seq<(Option<Seq<char>>, Option<Seq<char>>)>,
>;

/// Reads an lrclib response with `serde_json::from_slice` as an array of JSON
/// values and takes from each its `syncedLyrics` and `plainLyrics` fields
/// where they are strings (`Value::get`, `Value::as_str`). The contract claims
/// only that the result is a function of the bytes, named `lrclib_tracks`.
#[verifier::external_body]
fn decode_tracks(body: &[u8]) -> (r: Option<Vec<TrackLyrics>>)
    ensures
        match r {
            Some(v) => lrclib_tracks(body@) == Some(tracks_view(v@)),
            None => lrclib_tracks(body@) is None,
        },
{
    let arr: Vec<serde_json::Value> = serde_json::from_slice(body).ok()?;
    Some(arr.iter().map(|t| TrackLyrics {
        synced: t.get("syncedLyrics").and_then(|l| l.as_str()).map(|l| l.to_string()),
        plain: t.get("plainLyrics").and_then(|l| l.as_str()).map(|l| l.to_string()),
    }).collect())
}

/// The first text of `texts` that is present and not empty.
pub open spec fn first_text(texts: Seq<Option<Seq<char>>>) -> Option<Seq<char>>
    decreases texts.len(),
{
    if texts.len() == 0 {
        None
    } else if texts[0] is Some && texts[0]->0.len() > 0 {
        texts[0]
    } else {
        first_text(texts.drop_first())
    }
}

/// The first present, non-empty text, searching the lists in order.
pub open spec fn first_text_across(lists: Seq<Seq<Option<Seq<char>>>>) -> Option<Seq<char>>
    decreases lists.len(),
{
    if lists.len() == 0 {
        None
    } else {
        match first_text(lists[0]) {
            Some(t) => Some(t),
            None => first_text_across(lists.drop_first()),
        }
    }
}

/// One field of every result: the synced lyrics, or the plain ones.
pub open spec fn lyrics_field(
    responses: Seq<Seq<(Option<Seq<char>>, Option<Seq<char>>)>>,
    synced: bool,
) -> Seq<Seq<Option<Seq<char>>>> {
    responses.map_values(
        |a: Seq<(Option<Seq<char>>, Option<Seq<char>>)>|
            a.map_values(
                |t: (Option<Seq<char>>, Option<Seq<char>>)|
                    if synced {
                        t.0
                    } else {
                        t.1
                    },
            ),
    )
}

/// The lyrics to show: the first non-empty synced lyrics in any result,
/// `(true, lrc)`; failing that, the first non-empty plain lyrics,
/// `(false, text)`; failing that, none.
pub open spec fn chosen_lyrics(responses: Seq<Seq<(Option<Seq<char>>, Option<Seq<char>>)>>) -> Option<
    (bool, Seq<char>),
> {
    match first_text_across(lyrics_field(responses, true)) {
        Some(lrc) => Some((true, lrc)),
        None => match first_text_across(lyrics_field(responses, false)) {
            Some(plain) => Some((false, plain)),
            None => None,
        },
    }
}

fn first_lyrics_field(responses: &Vec<Vec<TrackLyrics>>, synced: bool) -> (r: Option<String>)
    ensures
        opt_text(r) == first_text_across(lyrics_field(responses_view(responses@), synced)),
{
    let ghost all = lyrics_field(responses_view(responses@), synced);
    let mut i: usize = 0;
    assert(all.skip(0) =~= all);
    while i < responses.len()
        invariant
            i <= responses.len(),
            all == lyrics_field(responses_view(responses@), synced),
            all.len() == responses.len(),
            first_text_across(all) == first_text_across(all.skip(i as int)),
        decreases responses.len() - i,
    {
        let tracks = &responses[i];
        let ghost row = all[i as int];
        assert(row.len() == tracks.len());
        let mut j: usize = 0;
        assert(row.skip(0) =~= row);
        while j < tracks.len()
            invariant
                j <= tracks.len(),
                row.len() == tracks.len(),
                tracks == responses@[i as int],
                row == all[i as int],
                all == lyrics_field(responses_view(responses@), synced),
                i < responses.len(),
                forall|k: int| 0 <= k < tracks.len() ==> #[trigger] row[k] == (if synced {
                    opt_text(tracks@[k].synced)
                } else {
                    opt_text(tracks@[k].plain)
                }),
                first_text(row) == first_text(row.skip(j as int)),
                first_text_across(all) == first_text_across(all.skip(i as int)),
            decreases tracks.len() - j,
        {
            let field = if synced {
                &tracks[j].synced
            } else {
                &tracks[j].plain
            };
            assert(row.skip(j as int)[0] == row[j as int]);
            assert(row.skip(j as int).drop_first() =~= row.skip(j + 1));
            match field {
                Some(text) => {
                    if !text.as_str().is_empty() {
                        let found = text.clone();
                        assert(row[j as int] == Some(text@));
                        assert(first_text(row.skip(j as int)) == Some(text@));
                        assert(all.skip(i as int)[0] == row);
                        assert(first_text_across(all.skip(i as int)) == Some(text@));
                        return Some(found);
                    }
                },
                None => {},
            }
            j += 1;
        }
        assert(row.skip(tracks.len() as int) =~= Seq::<Option<Seq<char>>>::empty());
        assert(all.skip(i as int)[0] == row);
        assert(all.skip(i as int).drop_first() =~= all.skip(i + 1));
        i += 1;
    }
    assert(all.skip(responses.len() as int) =~= Seq::<Seq<Option<Seq<char>>>>::empty());
    None
}

/// Chooses the lyrics to show from the search results, synced lyrics first.
pub fn choose_lyrics(responses: &Vec<Vec<TrackLyrics>>) -> (r: Option<(bool, String)>)
    ensures
        match r {
            Some((synced, text)) => chosen_lyrics(responses_view(responses@)) == Some(
                (synced, text@),
            ),
            None => chosen_lyrics(responses_view(responses@)) is None,
        },
{
    match first_lyrics_field(responses, true) {
        Some(lrc) => Some((true, lrc)),
        None => match first_lyrics_field(responses, false) {
            Some(plain) => Some((false, plain)),
            None => None,
        },
    }
}

/// The results of the searches whose responses decode to a non-empty array.
pub open spec fn found_results(bodies: Seq<Seq<u8>>) -> Seq<
    Seq<(Option<Seq<char>>, Option<Seq<char>>)>,
>
    decreases bodies.len(),
{
    if bodies.len() == 0 {
        Seq::empty()
    } else {
        let rest = found_results(bodies.drop_last());
        match lrclib_tracks(bodies.last()) {
            Some(tracks) => if tracks.len() > 0 {
                rest.push(tracks)
            } else {
                rest
            },
            None => rest,
        }
    }
}

/// Decodes the bodies of the lrclib responses and chooses the lyrics among
/// the results of those that hold a non-empty array.
pub fn lyrics_from_responses(bodies: &Vec<Vec<u8>>) -> (r: Option<(bool, String)>)
    ensures
        match r {
            Some((synced, text)) => chosen_lyrics(
                found_results(bodies@.map_values(|b: Vec<u8>| b@)),
            ) == Some((synced, text@)),
            None => chosen_lyrics(found_results(bodies@.map_values(|b: Vec<u8>| b@))) is None,
        },
{
    let ghost bs = bodies@.map_values(|b: Vec<u8>| b@);
    let mut responses: Vec<Vec<TrackLyrics>> = Vec::new();
    let mut i: usize = 0;
    while i < bodies.len()
        invariant
            i <= bodies.len(),
            bs == bodies@.map_values(|b: Vec<u8>| b@),
            responses_view(responses@) =~= found_results(bs.take(i as int)),
        decreases bodies.len() - i,
    {
        assert(bs.take(i + 1).drop_last() =~= bs.take(i as int));
        assert(bs.take(i + 1).last() == bodies@[i as int]@);
        let ghost before = responses@;
        match decode_tracks(bodies[i].as_slice()) {
            Some(tracks) => {
                if tracks.len() > 0 {
                    responses.push(tracks);
                    assert(responses_view(responses@) =~= responses_view(before).push(
                        tracks_view(responses@.last()@),
                    ));
                }
            },
            None => {},
        }
        i += 1;
    }
    assert(bs.take(bodies.len() as int) =~= bs);
    choose_lyrics(&responses)
}

// ----------------------------------------------------------------------------
// Laws
// ----------------------------------------------------------------------------
/// A reserved character of a query string.
pub open spec fn is_reserved(c: char) -> bool {
    c == ' ' || c == '&' || c == '+' || c == '#' || c == '?'
}

/// URL encoding leaves no reserved character (space, `&`, `+`, `#`, `?`) in
/// its output, and changes nothing in a text that holds none.
pub proof fn url_encoding_escapes_reserved(s: Seq<char>)
    ensures
        forall|i: int| 0 <= i < url_encoded(s).len() ==> !is_reserved(#[trigger] url_encoded(s)[i]),
        (forall|i: int| 0 <= i < s.len() ==> !is_reserved(#[trigger] s[i])) ==> url_encoded(s)
            == s,
    decreases s.len(),
{
    if s.len() > 0 {
        url_encoding_escapes_reserved(s.drop_last());
        let head = url_encoded(s.drop_last());
        let tail = url_escape(s.last());
        assert forall|i: int| 0 <= i < url_encoded(s).len() implies !is_reserved(
            #[trigger] url_encoded(s)[i],
        ) by {
            if i < head.len() {
                assert(url_encoded(s)[i] == head[i]);
            } else {
                assert(url_encoded(s)[i] == tail[i - head.len()]);
            }
        }
        if forall|i: int| 0 <= i < s.len() ==> !is_reserved(#[trigger] s[i]) {
            assert(!is_reserved(s[s.len() - 1]));
            assert forall|i: int| 0 <= i < s.drop_last().len() implies !is_reserved(
                #[trigger] s.drop_last()[i],
            ) by {
                assert(s.drop_last()[i] == s[i]);
            }
            assert(url_encoded(s) =~= s.drop_last().push(s.last()));
            assert(s.drop_last().push(s.last()) =~= s);
        }
    } else {
        assert(url_encoded(s) =~= s);
    }
}

/// Some entry of `texts` is a present, non-empty text.
pub open spec fn has_text(texts: Seq<Option<Seq<char>>>) -> bool {
    exists|j: int| 0 <= j < texts.len() && (#[trigger] texts[j]) is Some && texts[j]->0.len() > 0
}

proof fn lemma_first_text(texts: Seq<Option<Seq<char>>>)
    ensures
        first_text(texts) is Some <==> has_text(texts),
    decreases texts.len(),
{
    if texts.len() > 0 {
        lemma_first_text(texts.drop_first());
        if has_text(texts) && !(texts[0] is Some && texts[0]->0.len() > 0) {
            let j = choose|j: int|
                0 <= j < texts.len() && (#[trigger] texts[j]) is Some && texts[j]->0.len() > 0;
            assert(texts.drop_first()[j - 1] == texts[j]);
        }
        if has_text(texts.drop_first()) {
            let j = choose|j: int|
                0 <= j < texts.drop_first().len() && (#[trigger] texts.drop_first()[j]) is Some
                    && texts.drop_first()[j]->0.len() > 0;
            assert(texts[j + 1] == texts.drop_first()[j]);
        }
    }
}

proof fn lemma_first_text_across(lists: Seq<Seq<Option<Seq<char>>>>)
    ensures
        first_text_across(lists) is Some <==> exists|i: int|
            0 <= i < lists.len() && has_text(#[trigger] lists[i]),
    decreases lists.len(),
{
    if lists.len() > 0 {
        lemma_first_text(lists[0]);
        lemma_first_text_across(lists.drop_first());
        if exists|i: int| 0 <= i < lists.len() && has_text(#[trigger] lists[i]) {
            let i = choose|i: int| 0 <= i < lists.len() && has_text(#[trigger] lists[i]);
            if i > 0 {
                assert(lists.drop_first()[i - 1] == lists[i]);
            }
        }
        if exists|i: int| 0 <= i < lists.drop_first().len() && has_text(
            #[trigger] lists.drop_first()[i],
        ) {
            let i = choose|i: int|
                0 <= i < lists.drop_first().len() && has_text(#[trigger] lists.drop_first()[i]);
            assert(lists[i + 1] == lists.drop_first()[i]);
        }
    }
}

/// Some search result carries non-empty lyrics in the given field.
pub open spec fn some_result_has(
    responses: Seq<Seq<(Option<Seq<char>>, Option<Seq<char>>)>>,
    synced: bool,
) -> bool {
    exists|i: int, j: int|
        0 <= i < responses.len() && 0 <= j < responses[i].len() && {
            let field = if synced {
                (#[trigger] responses[i][j]).0
            } else {
                responses[i][j].1
            };
            field is Some && field->0.len() > 0
        }
}

proof fn lemma_some_result_has(
    responses: Seq<Seq<(Option<Seq<char>>, Option<Seq<char>>)>>,
    synced: bool,
)
    ensures
        first_text_across(lyrics_field(responses, synced)) is Some <==> some_result_has(
            responses,
            synced,
        ),
{
    let lists = lyrics_field(responses, synced);
    lemma_first_text_across(lists);
    if some_result_has(responses, synced) {
        let (i, j) = choose|i: int, j: int|
            0 <= i < responses.len() && 0 <= j < responses[i].len() && {
                let field = if synced {
                    (#[trigger] responses[i][j]).0
                } else {
                    responses[i][j].1
                };
                field is Some && field->0.len() > 0
            };
        assert(lists[i][j] is Some);
        assert(has_text(lists[i]));
    }
    if exists|i: int| 0 <= i < lists.len() && has_text(#[trigger] lists[i]) {
        let i = choose|i: int| 0 <= i < lists.len() && has_text(#[trigger] lists[i]);
        let j = choose|j: int|
            0 <= j < lists[i].len() && (#[trigger] lists[i][j]) is Some && lists[i][j]->0.len()
                > 0;
        assert(responses[i][j] == responses[i][j]);
        assert(some_result_has(responses, synced));
    }
}

/// Synced lyrics win: when any search result has non-empty synced lyrics,
/// synced lyrics are chosen.
pub proof fn synced_lyrics_win(responses: Seq<Seq<(Option<Seq<char>>, Option<Seq<char>>)>>)
    requires
        some_result_has(responses, true),
    ensures
        chosen_lyrics(responses) matches Some((synced, _)) && synced,
{
    lemma_some_result_has(responses, true);
}

/// Lyrics are found exactly when some search result carries non-empty synced
/// or plain lyrics; plain ones are chosen only when no result has synced ones.
pub proof fn lyrics_found_iff_present(responses: Seq<Seq<(Option<Seq<char>>, Option<Seq<char>>)>>)
    ensures
        chosen_lyrics(responses) is Some <==> (some_result_has(responses, true) || some_result_has(
            responses,
            false,
        )),
        chosen_lyrics(responses) matches Some((synced, _)) && !synced ==> !some_result_has(
            responses,
            true,
        ),
{
    lemma_some_result_has(responses, true);
    lemma_some_result_has(responses, false);
}

proof fn lemma_found_results_concat(a: Seq<Seq<u8>>, b: Seq<Seq<u8>>)
    ensures
        found_results(a + b) == found_results(a) + found_results(b),
    decreases b.len(),
{
    if b.len() == 0 {
        assert(a + b =~= a);
        assert(found_results(a) + Seq::empty() =~= found_results(a));
    } else {
        lemma_found_results_concat(a, b.drop_last());
        assert((a + b).drop_last() =~= a + b.drop_last());
        assert((a + b).last() == b.last());
        let fa = found_results(a);
        let fb = found_results(b.drop_last());
        match lrclib_tracks(b.last()) {
            Some(tracks) => {
                if tracks.len() > 0 {
                    assert((fa + fb).push(tracks) =~= fa + fb.push(tracks));
                }
            },
            None => {},
        }
    }
}

proof fn lemma_found_results_none(bodies: Seq<Seq<u8>>)
    requires
        forall|k: int|
            0 <= k < bodies.len() ==> (lrclib_tracks(#[trigger] bodies[k]) is None || lrclib_tracks(
                bodies[k],
            )->0.len() == 0),
    ensures
        found_results(bodies) == Seq::<Seq<(Option<Seq<char>>, Option<Seq<char>>)>>::empty(),
    decreases bodies.len(),
{
    if bodies.len() > 0 {
        let last = bodies.len() - 1;
        assert(bodies.last() == bodies[last]);
        assert forall|k: int| 0 <= k < bodies.drop_last().len() implies (lrclib_tracks(
            #[trigger] bodies.drop_last()[k],
        ) is None || lrclib_tracks(bodies.drop_last()[k])->0.len() == 0) by {
            assert(bodies.drop_last()[k] == bodies[k]);
        }
        lemma_found_results_none(bodies.drop_last());
    }
}

proof fn lemma_first_text_at(texts: Seq<Option<Seq<char>>>, j: int)
    requires
        0 <= j < texts.len(),
        texts[j] is Some,
        texts[j]->0.len() > 0,
        forall|k: int| 0 <= k < j ==> !((#[trigger] texts[k]) is Some && texts[k]->0.len() > 0),
    ensures
        first_text(texts) == texts[j],
    decreases j,
{
    if j > 0 {
        let rest = texts.drop_first();
        assert forall|k: int| 0 <= k < j - 1 implies !((#[trigger] rest[k]) is Some && rest[k]->0.len()
            > 0) by {
            assert(rest[k] == texts[k + 1]);
        }
        assert(!(texts[0] is Some && texts[0]->0.len() > 0));
        lemma_first_text_at(rest, j - 1);
    }
}

/// The results keep the order of the searches: the responses before the
/// first one that decodes to a non-empty array count for nothing, and when
/// that one holds a track with non-empty synced lyrics, the synced text of
/// its first such track is chosen, whatever the later responses hold.
pub proof fn first_answering_search_wins(bodies: Seq<Seq<u8>>, i: int, j: int, text: Seq<char>)
    requires
        0 <= i < bodies.len(),
        forall|k: int|
            0 <= k < i ==> (lrclib_tracks(#[trigger] bodies[k]) is None || lrclib_tracks(
                bodies[k],
            )->0.len() == 0),
        lrclib_tracks(bodies[i]) is Some,
        0 <= j < lrclib_tracks(bodies[i])->0.len(),
        lrclib_tracks(bodies[i])->0[j].0 == Some(text),
        text.len() > 0,
        forall|k: int|
            0 <= k < j ==> !((#[trigger] lrclib_tracks(bodies[i])->0[k]).0 is Some
                && lrclib_tracks(bodies[i])->0[k].0->0.len() > 0),
    ensures
        chosen_lyrics(found_results(bodies)) == Some((true, text)),
{
    let tracks = lrclib_tracks(bodies[i])->0;
    let before = bodies.subrange(0, i);
    let here = seq![bodies[i]];
    let after = bodies.subrange(i + 1, bodies.len() as int);
    assert(bodies =~= before + here + after);
    assert forall|k: int| 0 <= k < before.len() implies (lrclib_tracks(#[trigger] before[k]) is None
        || lrclib_tracks(before[k])->0.len() == 0) by {
        assert(before[k] == bodies[k]);
    }
    lemma_found_results_none(before);
    lemma_found_results_concat(before + here, after);
    lemma_found_results_concat(before, here);
    assert(here.drop_last() =~= Seq::<Seq<u8>>::empty());
    assert(here.last() == bodies[i]);
    assert(found_results(Seq::<Seq<u8>>::empty()) == Seq::<
        Seq<(Option<Seq<char>>, Option<Seq<char>>)>,
    >::empty());
    assert(tracks.len() > 0);
    assert(found_results(here) == found_results(here.drop_last()).push(tracks));
    assert(found_results(here) =~= seq![tracks]);
    let results = found_results(bodies);
    assert(results =~= seq![tracks] + found_results(after));
    let lists = lyrics_field(results, true);
    let texts = lists[0];
    assert(texts =~= tracks.map_values(
        |t: (Option<Seq<char>>, Option<Seq<char>>)| t.0,
    ));
    assert forall|k: int| 0 <= k < j implies !((#[trigger] texts[k]) is Some && texts[k]->0.len() > 0) by {
        assert(texts[k] == tracks[k].0);
    }
    lemma_first_text_at(texts, j);
}

} // verus!
