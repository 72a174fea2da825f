//! The spinning donut widget: the brightness ramp, the frame size, and the
//! painting of a character frame with ANSI colours (white for the dim
//! characters, amber for the bright ones).
use vstd::prelude::*;
use crate::text::{extend_str, string_of};

verus! {

/// The brightness ramp, from dimmest to brightest.
pub open spec fn ramp() -> Seq<char> {
    seq!['.', ',', '-', '~', ':', ';', '=', '!', '*', '#', '$', '@']
}

/// The ramp position for a luminance level: below 1 the dimmest, above 11
/// the brightest.
pub open spec fn ramp_index(level: int) -> int {
    if level <= 0 {
        0
    } else if level > 11 {
        11
    } else {
        level
    }
}

/// The character drawn for a luminance level.
pub fn luminance_char(level: i32) -> (c: char)
    ensures
        c == ramp()[ramp_index(level as int)],
{
    let i: i32 = if level <= 0 {
        0
    } else if level > 11 {
        11
    } else {
        level
    };
    if i == 0 { '.' }
    else if i == 1 { ',' }
    else if i == 2 { '-' }
    else if i == 3 { '~' }
    else if i == 4 { ':' }
    else if i == 5 { ';' }
    else if i == 6 { '=' }
    else if i == 7 { '!' }
    else if i == 8 { '*' }
    else if i == 9 { '#' }
    else if i == 10 { '$' }
    else { '@' }
}

/// The frame size for a terminal of `width` x `height` cells: at least ten
/// each way.
pub fn frame_size(width: usize, height: usize) -> (size: (usize, usize))
    ensures
        size.0 == (if width < 10 { 10 } else { width }),
        size.1 == (if height < 10 { 10 } else { height }),
{
    let w = if width < 10 {
        10
    } else {
        width
    };
    let h = if height < 10 {
        10
    } else {
        height
    };
    (w, h)
}

/// The colour of a drawn character: 1 (white) for the six dimmest, 2
/// (amber) for the others.
pub open spec fn shade_of(c: char) -> u8 {
    if c == '.' || c == ',' || c == '-' || c == '~' || c == ':' || c == ';' {
        1
    } else {
        2
    }
}

/// The escape that switches back to the terminal's colours.
pub open spec fn reset_code() -> Seq<char> {
    "\x1b[0m"@
}

/// The escape that switches to colour `shade`.
pub open spec fn shade_code(shade: u8) -> Seq<char> {
    if shade == 1 {
        "\x1b[38;2;255;255;255m"@
    } else {
        "\x1b[38;2;255;179;0m"@
    }
}

/// The reset escape when colour `colour` is on (0 meaning none).
pub open spec fn reset_if(colour: u8) -> Seq<char> {
    if colour != 0 {
        reset_code()
    } else {
        Seq::empty()
    }
}

/// The painted text of the characters `cs` of a row, colour `colour` being
/// on before them: a space switches the colour off, a drawn character
/// switches to its shade when that is not on already; the colour is
/// switched off at the end.
pub open spec fn paint_row(cs: Seq<char>, colour: u8) -> Seq<char>
    decreases cs.len(),
{
    if cs.len() == 0 {
        reset_if(colour)
    } else {
        let c = cs[0];
        if c == ' ' {
            reset_if(colour) + seq![' '] + paint_row(cs.drop_first(), 0)
        } else {
            let k = shade_of(c);
            (if k != colour {
                shade_code(k)
            } else {
                Seq::empty()
            }) + seq![c] + paint_row(cs.drop_first(), k)
        }
    }
}

/// The painted rows `y..height` of a frame of `width` columns, a line feed
/// after each row but the last.
pub open spec fn paint_rows(buf: Seq<char>, width: int, height: int, y: int) -> Seq<char>
    decreases height - y,
{
    if y >= height {
        Seq::empty()
    } else {
        paint_row(buf.subrange(y * width, y * width + width), 0) + (if y < height - 1 {
            seq!['\n']
        } else {
            Seq::empty()
        }) + paint_rows(buf, width, height, y + 1)
    }
}

fn shade_exec(c: char) -> (k: u8)
    ensures
        k == shade_of(c),
{
    if c == '.' || c == ',' || c == '-' || c == '~' || c == ':' || c == ';' {
        1
    } else {
        2
    }
}

/// Paints a frame of `height` rows of `width` characters, stored row after
/// row in `buf`, as coloured terminal text.
pub fn paint_frame(buf: &Vec<char>, width: usize, height: usize) -> (out: String)
    requires
        buf.len() == width * height,
    ensures
        out@ == paint_rows(buf@, width as int, height as int, 0),
{
    string_of(&paint_frame_chars(buf, width, height))
}

fn paint_frame_chars(buf: &Vec<char>, width: usize, height: usize) -> (out: Vec<char>)
    requires
        buf.len() == width * height,
    ensures
        out@ == paint_rows(buf@, width as int, height as int, 0),
{
    let ghost all = paint_rows(buf@, width as int, height as int, 0);
    let mut out: Vec<char> = Vec::new();
    let mut y: usize = 0;
    let mut base: usize = 0;
    while y < height
        invariant
            buf.len() == width * height,
            y <= height,
            base == y * width,
            all == paint_rows(buf@, width as int, height as int, 0),
            all == out@ + paint_rows(buf@, width as int, height as int, y as int),
        decreases height - y,
    {
        proof {
            assert((y + 1) * width <= height * width) by (nonlinear_arith)
                requires
                    y < height,
            ;
            assert((y + 1) * width == y * width + width) by (nonlinear_arith);
        }
        let ghost row = buf@.subrange(base as int, base + width);
        let ghost tail = (if y < height - 1 {
            seq!['\n']
        } else {
            Seq::<char>::empty()
        }) + paint_rows(buf@, width as int, height as int, y + 1);
        let mut colour: u8 = 0;
        let mut x: usize = 0;
        assert(row.subrange(0, width as int) =~= row);
        while x < width
            invariant
                buf.len() == width * height,
                y < height,
                base == y * width,
                base + width <= buf.len(),
                x <= width,
                row == buf@.subrange(base as int, base + width),
                all == out@ + paint_row(row.subrange(x as int, width as int), colour) + tail,
            decreases width - x,
        {
            let c = buf[base + x];
            let ghost rest = row.subrange(x as int, width as int);
            assert(rest[0] == c);
            assert(rest.drop_first() =~= row.subrange(x + 1, width as int));
            let ghost before = out@;
            let ghost old_colour = colour;
            if c == ' ' {
                if colour != 0 {
                    extend_str(&mut out, "\x1b[0m");
                    colour = 0;
                }
                out.push(' ');
            } else {
                let k = shade_exec(c);
                if k != colour {
                    if k == 1 {
                        extend_str(&mut out, "\x1b[38;2;255;255;255m");
                    } else {
                        extend_str(&mut out, "\x1b[38;2;255;179;0m");
                    }
                    colour = k;
                }
                out.push(c);
            }
            proof {
                let next = paint_row(row.subrange(x + 1, width as int), colour);
                let step = if c == ' ' {
                    reset_if(old_colour) + seq![' ']
                } else {
                    (if shade_of(c) != old_colour {
                        shade_code(shade_of(c))
                    } else {
                        Seq::empty()
                    }) + seq![c]
                };
                assert(out@ =~= before + step);
                assert(paint_row(rest, old_colour) == step + next);
                assert(before + (step + next) + tail =~= out@ + next + tail);
            }
            x += 1;
        }
        assert(row.subrange(width as int, width as int) =~= Seq::<char>::empty());
        if colour != 0 {
            extend_str(&mut out, "\x1b[0m");
        }
        if y + 1 < height {
            out.push('\n');
        }
        assert(all == out@ + paint_rows(buf@, width as int, height as int, y + 1));
        y += 1;
        base = base + width;
    }
    assert(all == out@ + Seq::<char>::empty());
    assert(out@ + Seq::<char>::empty() =~= out@);
    out
}

// ----------------------------------------------------------------------------
// Laws
// ----------------------------------------------------------------------------

/// One of the six dimmest ramp characters: `.` `,` `-` `~` `:` `;`.
pub open spec fn is_dim_char(c: char) -> bool {
    c == '.' || c == ',' || c == '-' || c == '~' || c == ':' || c == ';'
}

/// One of the six brightest ramp characters: `=` `!` `*` `#` `$` `@`.
pub open spec fn is_bright_char(c: char) -> bool {
    c == '=' || c == '!' || c == '*' || c == '#' || c == '$' || c == '@'
}

/// How a row is painted, one character at a time: the six dimmest ramp
/// characters are drawn after the white escape `ESC[38;2;255;255;255m`, the
/// six brightest after the amber escape `ESC[38;2;255;179;0m`, each escape
/// written only when that colour is not on already (colour 1 is white, 2 is
/// amber, 0 none); a space is drawn after the reset `ESC[0m` when a colour is
/// on, and the row ends with the reset when a colour is on.
pub proof fn painting_by_brightness(c: char, rest: Seq<char>, colour: u8)
    requires
        colour <= 2,
    ensures
        is_dim_char(c) && colour != 1 ==> paint_row(seq![c] + rest, colour) == "\x1b[38;2;255;255;255m"@
            + seq![c] + paint_row(rest, 1),
        is_dim_char(c) && colour == 1 ==> paint_row(seq![c] + rest, colour) == seq![c] + paint_row(
            rest,
            1,
        ),
        is_bright_char(c) && colour != 2 ==> paint_row(seq![c] + rest, colour) == "\x1b[38;2;255;179;0m"@
            + seq![c] + paint_row(rest, 2),
        is_bright_char(c) && colour == 2 ==> paint_row(seq![c] + rest, colour) == seq![c] + paint_row(
            rest,
            2,
        ),
        c == ' ' && colour != 0 ==> paint_row(seq![c] + rest, colour) == "\x1b[0m"@ + seq![' ']
            + paint_row(rest, 0),
        c == ' ' && colour == 0 ==> paint_row(seq![c] + rest, colour) == seq![' '] + paint_row(
            rest,
            0,
        ),
        colour != 0 ==> paint_row(Seq::empty(), colour) == "\x1b[0m"@,
        paint_row(Seq::empty(), 0) == Seq::<char>::empty(),
{
    let s = seq![c] + rest;
    assert(s[0] == c);
    assert(s.drop_first() =~= rest);
    assert(Seq::<char>::empty() + seq![c] =~= seq![c]);
}

} // verus!
