//! Splitting LRC lyrics into their timed lines.
use vstd::prelude::*;
use crate::text::{
    chars_of, contains, contains_chars, find, find_chars, slice_chars, string_of, trim, trim_chars,
};

verus! {

// ----------------------------------------------------------------------------
// LRC text
// ----------------------------------------------------------------------------

/// `line` without one trailing carriage return.
pub open spec fn without_cr(line: Seq<char>) -> Seq<char> {
    if line.len() > 0 && line.last() == '\r' {
        line.drop_last()
    } else {
        line
    }
}

/// The lines of `s` as `str::lines` yields them: split at each line feed,
/// each line that a line feed ends losing one carriage return before it, and
/// no empty line after a final line feed.
pub open spec fn text_lines(s: Seq<char>) -> Seq<Seq<char>>
    decreases s.len(),
{
    if s.len() == 0 {
        Seq::empty()
    } else {
        match find(s, seq!['\n']) {
            Some(p) => {
                proof {
                    crate::text::lemma_find_occurs(s, seq!['\n']);
                }
                seq![without_cr(s.subrange(0, p))] + text_lines(s.subrange(p + 1, s.len() as int))
            },
            None => seq![s],
        }
    }
}

/// The timestamp fields and text of one LRC line "[mm:ss.cc] text": the
/// line starts with `[`, the tag runs to the first `]` and holds exactly one
/// `:`; the text after the tag is trimmed.
pub open spec fn lrc_fields(line: Seq<char>) -> Option<(Seq<char>, Seq<char>, Seq<char>)> {
    if line.len() > 0 && line[0] == '[' {
        match find(line, seq![']']) {
            Some(end) => {
                let tag = line.subrange(1, end);
                let text = trim(line.subrange(end + 1, line.len() as int));
                match find(tag, seq![':']) {
                    Some(c) => {
                        let minutes = tag.subrange(0, c);
                        let seconds = tag.subrange(c + 1, tag.len() as int);
                        if contains(seconds, seq![':']) {
                            None
                        } else {
                            Some((minutes, seconds, text))
                        }
                    },
                    None => None,
                }
            },
            None => None,
        }
    } else {
        None
    }
}

/// The fields of every line that has an LRC tag, in order.
pub open spec fn lrc_entries(lines: Seq<Seq<char>>) -> Seq<(Seq<char>, Seq<char>, Seq<char>)>
    decreases lines.len(),
{
    if lines.len() == 0 {
        Seq::empty()
    } else {
        let rest = lrc_entries(lines.drop_last());
        match lrc_fields(lines.last()) {
            Some(f) => rest.push(f),
            None => rest,
        }
    }
}

/// One tagged line of LRC text, its timestamp fields not yet read as numbers.
pub struct LrcTag {
    pub minutes: String,
    pub seconds: String,
    pub text: String,
}

impl LrcTag {
    pub open spec fn view(&self) -> (Seq<char>, Seq<char>, Seq<char>) {
        (self.minutes@, self.seconds@, self.text@)
    }
}

fn single_char(c: char) -> (v: Vec<char>)
    ensures
        v@ == seq![c],
{
    let mut v: Vec<char> = Vec::new();
    v.push(c);
    assert(v@ =~= seq![c]);
    v
}

fn lrc_fields_of(line: &Vec<char>) -> (r: Option<LrcTag>)
    ensures
        match r {
            Some(t) => lrc_fields(line@) == Some(t.view()),
            None => lrc_fields(line@) is None,
        },
{
    if line.len() == 0 || line[0] != '[' {
        return None;
    }
    let close = single_char(']');
    let end = match find_chars(line, &close) {
        Some(e) => e,
        None => return None,
    };
    proof {
        crate::text::lemma_find_occurs(line@, seq![']']);
        // the tag starts after the opening bracket, so it ends at 1 or later
        assert(line@.subrange(end as int, end + 1)[0] == line@[end as int]);
    }
    let tag = slice_chars(line, 1, end);
    let text = trim_chars(&slice_chars(line, end + 1, line.len()));
    let colon = single_char(':');
    let c = match find_chars(&tag, &colon) {
        Some(c) => c,
        None => return None,
    };
    let minutes = slice_chars(&tag, 0, c);
    let seconds = slice_chars(&tag, c + 1, tag.len());
    if contains_chars(&seconds, &colon) {
        return None;
    }
    Some(LrcTag { minutes: string_of(&minutes), seconds: string_of(&seconds), text: string_of(&text) })
}

/// Splits `s` into lines as `str::lines` does.
pub fn lines_of(s: &Vec<char>) -> (out: Vec<Vec<char>>)
    ensures
        out@.len() == text_lines(s@).len(),
        forall|i: int| 0 <= i < out@.len() ==> #[trigger] out@[i]@ == text_lines(s@)[i],
{
    let newline = single_char('\n');
    let mut out: Vec<Vec<char>> = Vec::new();
    let mut start: usize = 0;
    let ghost mut done: Seq<Seq<char>> = Seq::empty();
    assert(s@.subrange(0, s.len() as int) =~= s@);
    while start < s.len()
        invariant
            start <= s.len(),
            newline@ == seq!['\n'],
            out@.len() == done.len(),
            forall|i: int| 0 <= i < out@.len() ==> #[trigger] out@[i]@ == done[i],
            text_lines(s@) == done + text_lines(s@.subrange(start as int, s.len() as int)),
        decreases s.len() - start,
    {
        let rest = slice_chars(s, start, s.len());
        match find_chars(&rest, &newline) {
            Some(p) => {
                let mut line = slice_chars(&rest, 0, p);
                if line.len() > 0 && line[line.len() - 1] == '\r' {
                    line.pop();
                }
                proof {
                    let ls = rest@.subrange(0, p as int);
                    if ls.len() > 0 && ls.last() == '\r' {
                        assert(line@ =~= ls.drop_last());
                    }
                    assert(rest@.subrange(p + 1, rest@.len() as int) =~= s@.subrange(
                        start + p + 1,
                        s.len() as int,
                    ));
                    assert(done.push(line@) + text_lines(
                        s@.subrange(start + p + 1, s.len() as int),
                    ) =~= done + (seq![without_cr(ls)] + text_lines(
                        s@.subrange(start + p + 1, s.len() as int),
                    )));
                    done = done.push(line@);
                }
                out.push(line);
                start = start + p + 1;
            },
            None => {
                proof {
                    assert(done.push(rest@) =~= done + seq![rest@]);
                    assert(s@.subrange(s.len() as int, s.len() as int) =~= Seq::<char>::empty());
                    done = done.push(rest@);
                }
                out.push(rest);
                start = s.len();
            },
        }
    }
    assert(s@.subrange(start as int, s.len() as int) =~= Seq::<char>::empty());
    assert(done + Seq::<Seq<char>>::empty() =~= done);
    out
}

/// Picks out the tagged lines of LRC lyrics, in the order they appear. Their
/// timestamps are read as numbers, and the lines sorted by them, by the
/// caller.
pub fn lrc_tags(lrc: &str) -> (tags: Vec<LrcTag>)
    ensures
        tags@.len() == lrc_entries(text_lines(lrc@)).len(),
        forall|i: int| 0 <= i < tags@.len() ==> #[trigger] tags@[i].view() == lrc_entries(
            text_lines(lrc@),
        )[i],
{
    let cs = chars_of(lrc);
    let lines = lines_of(&cs);
    let ghost ls = text_lines(lrc@);
    let mut tags: Vec<LrcTag> = Vec::new();
    let mut i: usize = 0;
    while i < lines.len()
        invariant
            i <= lines.len(),
            lines@.len() == ls.len(),
            forall|k: int| 0 <= k < lines@.len() ==> #[trigger] lines@[k]@ == ls[k],
            tags@.len() == lrc_entries(ls.take(i as int)).len(),
            forall|k: int| 0 <= k < tags@.len() ==> #[trigger] tags@[k].view() == lrc_entries(
                ls.take(i as int),
            )[k],
        decreases lines.len() - i,
    {
        assert(ls.take(i + 1).drop_last() =~= ls.take(i as int));
        assert(ls.take(i + 1).last() == ls[i as int]);
        match lrc_fields_of(&lines[i]) {
            Some(t) => {
                tags.push(t);
            },
            None => {},
        }
        i += 1;
    }
    assert(ls.take(lines.len() as int) =~= ls);
    tags
}

} // verus!
