//! The Game of Life widget: a toroidal grid of cells seeded from a bitmap
//! mask over random noise, stepped by Conway's rule, and drawn in two colours.
use vstd::prelude::*;

verus! {

/// Columns of the board.
pub const LIFE_WIDTH: usize = 280;

/// Rows of the board.
pub const LIFE_HEIGHT: usize = 140;

// ----------------------------------------------------------------------------
// The mask
// ----------------------------------------------------------------------------

/// `line` without one trailing carriage return.
pub open spec fn without_cr_byte(line: Seq<u8>) -> Seq<u8> {
    if line.len() > 0 && line.last() == 13u8 {
        line.drop_last()
    } else {
        line
    }
}

/// The lines of a text given as bytes, as `str::lines` splits them: at each
/// line feed, each such line losing one carriage return before it, and no
/// empty line after a final line feed.
pub open spec fn byte_lines(s: Seq<u8>) -> Seq<Seq<u8>>
    decreases s.len(),
{
    if s.len() == 0 {
        Seq::empty()
    } else {
        match s.index_of_first(10u8) {
            Some(p) => {
                proof {
                    s.index_of_first_ensures(10u8);
                }
                seq![without_cr_byte(s.subrange(0, p))] + byte_lines(
                    s.subrange(p + 1, s.len() as int),
                )
            },
            None => seq![s],
        }
    }
}

/// The non-empty lines among `lines`, in order.
pub open spec fn non_empty_lines(lines: Seq<Seq<u8>>) -> Seq<Seq<u8>>
    decreases lines.len(),
{
    if lines.len() == 0 {
        Seq::empty()
    } else {
        let rest = non_empty_lines(lines.drop_last());
        if lines.last().len() > 0 {
            rest.push(lines.last())
        } else {
            rest
        }
    }
}

/// The view of a vector of byte rows.
pub open spec fn rows_view(rows: Seq<Vec<u8>>) -> Seq<Seq<u8>> {
    rows.map_values(|r: Vec<u8>| r@)
}

fn copy_bytes(s: &[u8], from: usize, to: usize) -> (out: Vec<u8>)
    requires
        from <= to <= s@.len(),
    ensures
        out@ == s@.subrange(from as int, to as int),
{
    let mut out: Vec<u8> = Vec::new();
    let mut i = from;
    while i < to
        invariant
            from <= i <= to <= s@.len(),
            out@ == s@.subrange(from as int, i as int),
        decreases to - i,
    {
        out.push(s[i]);
        assert(s@.subrange(from as int, i + 1) =~= s@.subrange(from as int, i as int).push(
            s@[i as int],
        ));
        i += 1;
    }
    out
}

/// The non-empty lines of the mask text, as bytes.
pub fn mask_rows(mask: &[u8]) -> (rows: Vec<Vec<u8>>)
    ensures
        rows_view(rows@) == non_empty_lines(byte_lines(mask@)),
{
    let ghost s = mask@;
    let mut rows: Vec<Vec<u8>> = Vec::new();
    let mut start: usize = 0;
    let ghost mut done: Seq<Seq<u8>> = Seq::empty();
    assert(s.subrange(0, s.len() as int) =~= s);
    while start < mask.len()
        invariant
            s == mask@,
            start <= s.len(),
            rows_view(rows@) == non_empty_lines(done),
            byte_lines(s) == done + byte_lines(s.subrange(start as int, s.len() as int)),
        decreases s.len() - start,
    {
        let ghost rest = s.subrange(start as int, s.len() as int);
        let mut j = start;
        while j < mask.len() && mask[j] != 10
            invariant
                s == mask@,
                start <= j <= s.len(),
                forall|k: int| start <= k < j ==> s[k] != 10u8,
            decreases s.len() - j,
        {
            j += 1;
        }
        proof {
            rest.index_of_first_ensures(10u8);
        }
        let mut line = copy_bytes(mask, start, j);
        let ghost rows_before = rows@;
        if j < mask.len() {
            proof {
                let p = (j - start) as int;
                assert(rest[p] == 10u8);
                assert(rest.contains(10u8));
                let q = rest.index_of_first(10u8)->0;
                assert(q == p) by {
                    if q < p {
                        assert(rest[q] == s[start + q]);
                    }
                }
            }
            if line.len() > 0 && line[line.len() - 1] == 13 {
                line.pop();
            }
            proof {
                let raw = s.subrange(start as int, j as int);
                assert(rest.subrange(0, (j - start) as int) =~= raw);
                if raw.len() > 0 && raw.last() == 13u8 {
                    assert(line@ =~= raw.drop_last());
                }
                assert(line@ == without_cr_byte(raw));
                assert(rest.subrange((j - start) + 1, rest.len() as int) =~= s.subrange(
                    j + 1,
                    s.len() as int,
                ));
                assert(done.push(line@) + byte_lines(s.subrange(j + 1, s.len() as int))
                    =~= done + (seq![line@] + byte_lines(s.subrange(j + 1, s.len() as int))));
                assert(done.push(line@).drop_last() =~= done);
                done = done.push(line@);
            }
            if line.len() > 0 {
                rows.push(line);
                assert(rows_view(rows@) =~= rows_view(rows_before).push(rows@.last()@));
            }
            start = j + 1;
        } else {
            proof {
                assert(!rest.contains(10u8)) by {
                    if rest.contains(10u8) {
                        let k = choose|k: int| 0 <= k < rest.len() && rest[k] == 10u8;
                        assert(rest[k] == s[start + k]);
                    }
                }
                assert(line@ =~= rest);
                assert(s.subrange(s.len() as int, s.len() as int) =~= Seq::<u8>::empty());
                assert(done.push(rest) =~= done + seq![rest]);
                assert(done.push(rest).drop_last() =~= done);
                done = done.push(rest);
            }
            if line.len() > 0 {
                rows.push(line);
                assert(rows_view(rows@) =~= rows_view(rows_before).push(rows@.last()@));
            }
            start = mask.len();
        }
    }
    assert(s.subrange(start as int, s.len() as int) =~= Seq::<u8>::empty());
    assert(done + Seq::<Seq<u8>>::empty() =~= done);
    rows
}

// ----------------------------------------------------------------------------
// The starting board
// ----------------------------------------------------------------------------

/// A board of `height` rows of `width` cells.
pub open spec fn is_board(g: Seq<Seq<bool>>, width: int, height: int) -> bool {
    g.len() == height && forall|y: int| 0 <= y < height ==> (#[trigger] g[y]).len() == width
}

/// The view of a board.
pub open spec fn board_view(g: Seq<Vec<bool>>) -> Seq<Seq<bool>> {
    g.map_values(|r: Vec<bool>| r@)
}

/// Where the mask starts along an axis of `size` cells when `mask_size` of
/// them are covered: centred, or at 0 when the mask does not fit.
pub open spec fn mask_offset(size: int, mask_size: int) -> int {
    if size > mask_size {
        (size - mask_size) / 2
    } else {
        0
    }
}

/// The starting state of cell (`x`, `y`): inside the rectangle of the
/// centred mask, alive where the mask has a `1` (and dead past the end of a
/// short mask line); outside it, the noise.
pub open spec fn seeded_cell(
    mask: Seq<Seq<u8>>,
    noise: Seq<Seq<bool>>,
    width: int,
    height: int,
    x: int,
    y: int,
) -> bool {
    let mh = mask.len() as int;
    let mw = if mh > 0 {
        mask[0].len() as int
    } else {
        0
    };
    let sy = mask_offset(height, mh);
    let sx = mask_offset(width, mw);
    if sy <= y < sy + mh && sx <= x < sx + mw {
        let line = mask[y - sy];
        (x - sx) < line.len() && line[x - sx] == 49u8
    } else {
        noise[y][x]
    }
}

/// The starting board: the mask drawn in the middle of the noise.
pub fn seed_board(mask: &Vec<Vec<u8>>, noise: &Vec<Vec<bool>>, width: usize, height: usize) -> (g:
    Vec<Vec<bool>>)
    requires
        is_board(board_view(noise@), width as int, height as int),
    ensures
        is_board(board_view(g@), width as int, height as int),
        forall|y: int, x: int|
            0 <= y < height && 0 <= x < width ==> #[trigger] g@[y]@[x] == seeded_cell(
                rows_view(mask@),
                board_view(noise@),
                width as int,
                height as int,
                x,
                y,
            ),
{
    let mh = mask.len();
    let mw = if mh > 0 {
        mask[0].len()
    } else {
        0
    };
    let sy = if height > mh {
        (height - mh) / 2
    } else {
        0
    };
    let sx = if width > mw {
        (width - mw) / 2
    } else {
        0
    };
    let ghost m = rows_view(mask@);
    let ghost nz = board_view(noise@);
    let mut g: Vec<Vec<bool>> = Vec::new();
    let mut y: usize = 0;
    while y < height
        invariant
            y <= height,
            m == rows_view(mask@),
            nz == board_view(noise@),
            is_board(nz, width as int, height as int),
            mh == mask.len(),
            mw == (if mh > 0 { m[0].len() as int } else { 0 }),
            sy == mask_offset(height as int, mh as int),
            sx == mask_offset(width as int, mw as int),
            g.len() == y,
            forall|r: int| 0 <= r < y ==> (#[trigger] g@[r]@).len() == width,
            forall|r: int, x: int|
                0 <= r < y && 0 <= x < width ==> #[trigger] g@[r]@[x] == seeded_cell(
                    m,
                    nz,
                    width as int,
                    height as int,
                    x,
                    r,
                ),
        decreases height - y,
    {
        let mut row: Vec<bool> = Vec::new();
        let mut x: usize = 0;
        while x < width
            invariant
                x <= width,
                y < height,
                m == rows_view(mask@),
                nz == board_view(noise@),
                is_board(nz, width as int, height as int),
                mh == mask.len(),
                mw == (if mh > 0 { m[0].len() as int } else { 0 }),
                sy == mask_offset(height as int, mh as int),
                sx == mask_offset(width as int, mw as int),
                row.len() == x,
                forall|c: int| 0 <= c < x ==> #[trigger] row@[c] == seeded_cell(
                    m,
                    nz,
                    width as int,
                    height as int,
                    c,
                    y as int,
                ),
            decreases width - x,
        {
            let alive = if y >= sy && y - sy < mh && x >= sx && x - sx < mw {
                let line = &mask[y - sy];
                x - sx < line.len() && line[x - sx] == 49
            } else {
                assert(nz[y as int] == noise@[y as int]@);
                noise[y][x]
            };
            row.push(alive);
            x += 1;
        }
        g.push(row);
        y += 1;
    }
    assert(board_view(g@).len() == height);
    g
}

// ----------------------------------------------------------------------------
// One generation
// ----------------------------------------------------------------------------

/// The index before `i` on a ring of `n`.
pub open spec fn ring_prev(i: int, n: int) -> int {
    if i == 0 {
        n - 1
    } else {
        i - 1
    }
}

/// The index after `i` on a ring of `n`.
pub open spec fn ring_next(i: int, n: int) -> int {
    if i + 1 == n {
        0
    } else {
        i + 1
    }
}

/// 1 for a live cell, 0 for a dead one.
pub open spec fn alive_count(g: Seq<Seq<bool>>, y: int, x: int) -> int {
    if g[y][x] {
        1
    } else {
        0
    }
}

/// The live cells among the eight around (`x`, `y`), the board wrapping
/// around at its edges (a torus).
pub open spec fn live_neighbors(g: Seq<Seq<bool>>, width: int, height: int, x: int, y: int) -> int {
    let u = ring_prev(y, height);
    let d = ring_next(y, height);
    let l = ring_prev(x, width);
    let r = ring_next(x, width);
    alive_count(g, u, l) + alive_count(g, u, x) + alive_count(g, u, r) + alive_count(g, y, l)
        + alive_count(g, y, r) + alive_count(g, d, l) + alive_count(g, d, x) + alive_count(g, d, r)
}

/// Conway's rule: a live cell survives with two or three live neighbours, a
/// dead one comes alive with exactly three.
pub open spec fn next_alive(alive: bool, neighbors: int) -> bool {
    if alive {
        neighbors == 2 || neighbors == 3
    } else {
        neighbors == 3
    }
}

/// The board one generation on.
pub open spec fn stepped_cell(g: Seq<Seq<bool>>, width: int, height: int, x: int, y: int) -> bool {
    next_alive(g[y][x], live_neighbors(g, width, height, x, y))
}

fn ring_prev_exec(i: usize, n: usize) -> (j: usize)
    requires
        i < n,
    ensures
        j == ring_prev(i as int, n as int),
        j < n,
{
    if i == 0 {
        n - 1
    } else {
        i - 1
    }
}

fn ring_next_exec(i: usize, n: usize) -> (j: usize)
    requires
        i < n,
    ensures
        j == ring_next(i as int, n as int),
        j < n,
{
    if i + 1 == n {
        0
    } else {
        i + 1
    }
}

fn count_cell(g: &Vec<Vec<bool>>, y: usize, x: usize) -> (c: u8)
    requires
        y < g.len(),
        x < g@[y as int].len(),
    ensures
        c == alive_count(board_view(g@), y as int, x as int),
{
    if g[y][x] {
        1
    } else {
        0
    }
}

/// Advances the board one generation by Conway's rule on a torus.
pub fn life_step(g: &Vec<Vec<bool>>, width: usize, height: usize) -> (next: Vec<Vec<bool>>)
    requires
        width > 0,
        height > 0,
        is_board(board_view(g@), width as int, height as int),
    ensures
        is_board(board_view(next@), width as int, height as int),
        forall|y: int, x: int|
            0 <= y < height && 0 <= x < width ==> #[trigger] next@[y]@[x] == stepped_cell(
                board_view(g@),
                width as int,
                height as int,
                x,
                y,
            ),
        forall|y: int, x: int|
            0 <= y < height && 0 <= x < width ==> #[trigger] next@[y]@[x] == (if g@[y]@[x] {
                torus_count(board_view(g@), width as int, height as int, x, y) == 2 || torus_count(
                    board_view(g@),
                    width as int,
                    height as int,
                    x,
                    y,
                ) == 3
            } else {
                torus_count(board_view(g@), width as int, height as int, x, y) == 3
            }),
{
    let next = life_generation(g, width, height);
    assert forall|y: int, x: int| 0 <= y < height && 0 <= x < width implies #[trigger] next@[y]@[x]
        == (if g@[y]@[x] {
        torus_count(board_view(g@), width as int, height as int, x, y) == 2 || torus_count(
            board_view(g@),
            width as int,
            height as int,
            x,
            y,
        ) == 3
    } else {
        torus_count(board_view(g@), width as int, height as int, x, y) == 3
    }) by {
        conway_rule_on_torus(board_view(g@), width as int, height as int, x, y);
    }
    next
}

fn life_generation(g: &Vec<Vec<bool>>, width: usize, height: usize) -> (next: Vec<Vec<bool>>)
    requires
        width > 0,
        height > 0,
        is_board(board_view(g@), width as int, height as int),
    ensures
        is_board(board_view(next@), width as int, height as int),
        forall|y: int, x: int|
            0 <= y < height && 0 <= x < width ==> #[trigger] next@[y]@[x] == stepped_cell(
                board_view(g@),
                width as int,
                height as int,
                x,
                y,
            ),
{
    let ghost b = board_view(g@);
    let mut next: Vec<Vec<bool>> = Vec::new();
    let mut y: usize = 0;
    while y < height
        invariant
            y <= height,
            width > 0,
            b == board_view(g@),
            is_board(b, width as int, height as int),
            next.len() == y,
            forall|r: int| 0 <= r < y ==> (#[trigger] next@[r]@).len() == width,
            forall|r: int, x: int|
                0 <= r < y && 0 <= x < width ==> #[trigger] next@[r]@[x] == stepped_cell(
                    b,
                    width as int,
                    height as int,
                    x,
                    r,
                ),
        decreases height - y,
    {
        let up = ring_prev_exec(y, height);
        let down = ring_next_exec(y, height);
        assert(b[up as int].len() == width && b[y as int].len() == width && b[down as int].len()
            == width);
        let mut row: Vec<bool> = Vec::new();
        let mut x: usize = 0;
        while x < width
            invariant
                x <= width,
                y < height,
                up == ring_prev(y as int, height as int),
                down == ring_next(y as int, height as int),
                up < height,
                down < height,
                b == board_view(g@),
                is_board(b, width as int, height as int),
                row.len() == x,
                forall|c: int| 0 <= c < x ==> #[trigger] row@[c] == stepped_cell(
                    b,
                    width as int,
                    height as int,
                    c,
                    y as int,
                ),
            decreases width - x,
        {
            let left = ring_prev_exec(x, width);
            let right = ring_next_exec(x, width);
            assert(g@[up as int]@ == b[up as int]);
            assert(g@[y as int]@ == b[y as int]);
            assert(g@[down as int]@ == b[down as int]);
            let n = count_cell(g, up, left) + count_cell(g, up, x) + count_cell(g, up, right)
                + count_cell(g, y, left) + count_cell(g, y, right) + count_cell(g, down, left)
                + count_cell(g, down, x) + count_cell(g, down, right);
            let alive = g[y][x];
            let lives = if alive {
                n == 2 || n == 3
            } else {
                n == 3
            };
            row.push(lives);
            x += 1;
        }
        next.push(row);
        y += 1;
    }
    next
}

// ----------------------------------------------------------------------------
// Drawing
// ----------------------------------------------------------------------------

/// Live cells at (`x`, `y`) with 7x + 13y divisible by 3 are drawn amber,
/// the others white.
pub open spec fn is_amber_cell(x: int, y: int) -> bool {
    (x * 7 + y * 13) % 3 == 0
}

/// The canvas points, (x, height - 1 - y) with the y axis pointing up, of
/// the live cells of row `y` before column `upto` that have the colour
/// `amber`, left to right.
pub open spec fn row_points(g: Seq<Seq<bool>>, height: int, y: int, upto: int, amber: bool) -> Seq<
    (usize, usize),
>
    decreases upto,
{
    if upto <= 0 {
        Seq::empty()
    } else {
        let rest = row_points(g, height, y, upto - 1, amber);
        let x = upto - 1;
        if g[y][x] && is_amber_cell(x, y) == amber {
            rest.push((x as usize, (height - 1 - y) as usize))
        } else {
            rest
        }
    }
}

/// The canvas points of the live cells of colour `amber` in the rows before
/// `upto`, row after row.
pub open spec fn board_points(g: Seq<Seq<bool>>, width: int, height: int, upto: int, amber: bool) -> Seq<
    (usize, usize),
>
    decreases upto,
{
    if upto <= 0 {
        Seq::empty()
    } else {
        board_points(g, width, height, upto - 1, amber) + row_points(
            g,
            height,
            upto - 1,
            width,
            amber,
        )
    }
}

/// The canvas points of the live cells, split into (white, amber).
pub fn live_points(g: &Vec<Vec<bool>>, width: usize, height: usize) -> (pts: (
    Vec<(usize, usize)>,
    Vec<(usize, usize)>,
))
    requires
        is_board(board_view(g@), width as int, height as int),
    ensures
        pts.0@ == board_points(board_view(g@), width as int, height as int, height as int, false),
        pts.1@ == board_points(board_view(g@), width as int, height as int, height as int, true),
{
    let ghost b = board_view(g@);
    let mut white: Vec<(usize, usize)> = Vec::new();
    let mut amber: Vec<(usize, usize)> = Vec::new();
    let mut y: usize = 0;
    while y < height
        invariant
            y <= height,
            b == board_view(g@),
            is_board(b, width as int, height as int),
            white@ == board_points(b, width as int, height as int, y as int, false),
            amber@ == board_points(b, width as int, height as int, y as int, true),
        decreases height - y,
    {
        let ghost white0 = white@;
        let ghost amber0 = amber@;
        assert(g@[y as int]@ == b[y as int]);
        let mut x: usize = 0;
        while x < width
            invariant
                x <= width,
                y < height,
                b == board_view(g@),
                is_board(b, width as int, height as int),
                g@[y as int]@ == b[y as int],
                white@ == white0 + row_points(b, height as int, y as int, x as int, false),
                amber@ == amber0 + row_points(b, height as int, y as int, x as int, true),
            decreases width - x,
        {
            if g[y][x] {
                let k = ((x as u128) * 7 + (y as u128) * 13) % 3;
                let p = (x, height - 1 - y);
                if k == 0 {
                    amber.push(p);
                } else {
                    white.push(p);
                }
            }
            proof {
                assert(white0 + row_points(b, height as int, y as int, x + 1, false) =~= white@);
                assert(amber0 + row_points(b, height as int, y as int, x + 1, true) =~= amber@);
            }
            x += 1;
        }
        y += 1;
    }
    (white, amber)
}

// ----------------------------------------------------------------------------
// Laws
// ----------------------------------------------------------------------------

/// A board with no live cell stays without one.
pub proof fn empty_board_stays_empty(g: Seq<Seq<bool>>, width: int, height: int)
    requires
        width > 0,
        height > 0,
        is_board(g, width, height),
        forall|y: int, x: int| 0 <= y < height && 0 <= x < width ==> !(#[trigger] g[y][x]),
    ensures
        forall|y: int, x: int|
            0 <= y < height && 0 <= x < width ==> !#[trigger] stepped_cell(g, width, height, x, y),
{
    assert forall|y: int, x: int| 0 <= y < height && 0 <= x < width implies !#[trigger] stepped_cell(
        g,
        width,
        height,
        x,
        y,
    ) by {
        let u = ring_prev(y, height);
        let d = ring_next(y, height);
        let l = ring_prev(x, width);
        let r = ring_next(x, width);
        assert(!g[u][l] && !g[u][x] && !g[u][r] && !g[y][l] && !g[y][r] && !g[d][l] && !g[d][x]
            && !g[d][r]);
        assert(live_neighbors(g, width, height, x, y) == 0);
    }
}

/// The ring neighbours are the wrapped indices: the cell before `i` is
/// `(i - 1) mod n`, the one after it `(i + 1) mod n` (`rem_euclid`).
pub proof fn ring_neighbors_wrap(i: int, n: int)
    requires
        0 <= i < n,
    ensures
        ring_prev(i, n) == (i - 1) % n,
        ring_next(i, n) == (i + 1) % n,
{
    if i == 0 {
        assert((-1int) % n == n - 1) by (nonlinear_arith)
            requires
                n > 0,
        ;
    } else {
        assert((i - 1) % n == i - 1) by (nonlinear_arith)
            requires
                0 <= i - 1 < n,
        ;
    }
    if i + 1 == n {
        assert(n % n == 0) by (nonlinear_arith)
            requires
                n > 0,
        ;
    } else {
        assert((i + 1) % n == i + 1) by (nonlinear_arith)
            requires
                0 <= i + 1 < n,
        ;
    }
}

/// 1 when the cell at row `y`, column `x` of `g` is alive, else 0.
pub open spec fn cell_value(g: Seq<Seq<bool>>, y: int, x: int) -> int {
    if g[y][x] {
        1
    } else {
        0
    }
}

/// The live cells among the eight at row and column offsets -1, 0, +1 from
/// (`x`, `y`), each coordinate taken modulo the board size (`rem_euclid`).
pub open spec fn torus_count(g: Seq<Seq<bool>>, width: int, height: int, x: int, y: int) -> int {
    cell_value(g, (y - 1) % height, (x - 1) % width) + cell_value(g, (y - 1) % height, x % width)
        + cell_value(g, (y - 1) % height, (x + 1) % width) + cell_value(g, y % height, (x - 1) % width)
        + cell_value(g, y % height, (x + 1) % width) + cell_value(g, (y + 1) % height, (x - 1) % width)
        + cell_value(g, (y + 1) % height, x % width) + cell_value(g, (y + 1) % height, (x + 1) % width)
}

/// Conway's rule on the torus, with the neighbours counted by wrapped
/// coordinates: a dead cell is born exactly when 3 of its 8 neighbours are
/// alive (so never with 6), and a live cell survives exactly with 2 or 3.
pub proof fn conway_rule_on_torus(g: Seq<Seq<bool>>, width: int, height: int, x: int, y: int)
    requires
        width > 0,
        height > 0,
        is_board(g, width, height),
        0 <= x < width,
        0 <= y < height,
    ensures
        !g[y][x] ==> (stepped_cell(g, width, height, x, y) <==> torus_count(g, width, height, x, y)
            == 3),
        g[y][x] ==> (stepped_cell(g, width, height, x, y) <==> (torus_count(
            g,
            width,
            height,
            x,
            y,
        ) == 2 || torus_count(g, width, height, x, y) == 3)),
{
    ring_neighbors_wrap(x, width);
    ring_neighbors_wrap(y, height);
    assert(x % width == x) by (nonlinear_arith)
        requires
            0 <= x < width,
    ;
    assert(y % height == y) by (nonlinear_arith)
        requires
            0 <= y < height,
    ;
    assert(live_neighbors(g, width, height, x, y) == torus_count(g, width, height, x, y));
}

} // verus!
