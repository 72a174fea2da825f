//! The system monitor widget: memory sizes as short labels, and the layout of
//! the per-core load grid.
use vstd::prelude::*;
use crate::text::{decimal, digit, digit_char, push_decimal, string_of};

verus! {

/// 2^20, bytes in a mebibyte.
pub open spec fn mib() -> nat {
    1048576
}

/// 2^30, bytes in a gibibyte.
pub open spec fn gib() -> nat {
    1073741824
}

/// 2^53: integers below it are exact in an `f64`.
pub open spec fn f64_exact_limit() -> nat {
    9007199254740992
}

/// The spacing of the `f64` values around `n`: 1 below 2^53, and doubling
/// with each further binary digit of `n`.
pub open spec fn f64_spacing(n: nat) -> nat
    decreases n,
{
    if n < f64_exact_limit() {
        1
    } else {
        2 * f64_spacing(n / 2)
    }
}

/// `num / den` rounded to the nearest integer, ties to the even one.
pub open spec fn round_half_even(num: nat, den: nat) -> nat
    recommends
        den > 0,
{
    let q = num / den;
    let r = num % den;
    if 2 * r > den || (2 * r == den && q % 2 == 1) {
        q + 1
    } else {
        q
    }
}

/// The value of `n as f64`: `n` rounded to the nearest multiple of the
/// spacing there, ties to the even multiple.
pub open spec fn f64_of(n: nat) -> nat {
    round_half_even(n, f64_spacing(n)) * f64_spacing(n)
}

/// The label for a byte count: gibibytes with one decimal and a "G" from one
/// gibibyte on, else whole mebibytes and an "M"; both rounded from the
/// `f64` value of the count, ties to even, as `{:.1}` and `{:.0}` print it.
pub open spec fn bytes_label(bytes: nat) -> Seq<char> {
    let f = f64_of(bytes);
    if f >= gib() {
        let tenths = round_half_even(f * 10, gib());
        decimal(tenths / 10) + seq!['.', digit(tenths % 10), 'G']
    } else {
        decimal(round_half_even(f, mib())) + seq!['M']
    }
}

proof fn lemma_spacing_positive(n: nat)
    ensures
        f64_spacing(n) >= 1,
    decreases n,
{
    if n >= f64_exact_limit() {
        lemma_spacing_positive(n / 2);
    }
}

/// The value of `n as f64`.
fn f64_value(n: u64) -> (f: u128)
    ensures
        f == f64_of(n as nat),
        f <= 0x2_0000_0000_0000_0000u128,
{
    let mut unit: u128 = 1;
    let mut m: u64 = n;
    while m >= 9007199254740992
        invariant
            unit >= 1,
            unit * (m as nat) <= n as nat,
            (m >= 1 && unit <= n) || (n == 0 && unit == 1),
            f64_spacing(n as nat) == unit * f64_spacing(m as nat),
        decreases m,
    {
        assert(f64_spacing(m as nat) == 2 * f64_spacing((m / 2) as nat));
        proof {
            let u = unit as nat;
            let mm = m as nat;
            assert(u * 2 * (mm / 2) <= u * mm) by (nonlinear_arith)
                requires
                    u >= 1,
            ;
            assert(u * (2 * f64_spacing((mm / 2) as nat)) == (u * 2) * f64_spacing(
                (mm / 2) as nat,
            )) by (nonlinear_arith);
            assert(u * 2 <= u * 2 * (mm / 2)) by (nonlinear_arith)
                requires
                    u >= 1,
                    mm >= 9007199254740992,
            ;
        }
        unit = unit * 2;
        m = m / 2;
    }
    proof {
        let sm = f64_spacing(m as nat);
        assert(sm == 1);
        assert(unit * sm == unit) by (nonlinear_arith)
            requires
                sm == 1,
        ;
    }
    assert(f64_spacing(n as nat) == unit);
    let q = (n as u128) / unit;
    let low = (n as u128) % unit;
    proof {
        let nn = n as nat;
        let u = unit as nat;
        assert(q * u + low == nn) by (nonlinear_arith)
            requires
                q == nn / u,
                low == nn % u,
                u >= 1,
        ;
        assert((q + 1) * u == q * u + u) by (nonlinear_arith);
    }
    let base = (n as u128) - low;
    let f = if low > unit - low || (low == unit - low && q % 2 == 1) {
        base + unit
    } else {
        base
    };
    assert(f == f64_of(n as nat));
    f
}

fn rounded_half_even(num: u128, den: u128) -> (r: u128)
    requires
        den > 0,
        num <= 0x100_0000_0000_0000_0000u128,
    ensures
        r == round_half_even(num as nat, den as nat),
        r <= num / den + 1,
{
    let q = num / den;
    let rem = num % den;
    if rem > den - rem || (rem == den - rem && q % 2 == 1) {
        q + 1
    } else {
        q
    }
}

/// A byte count as a short label: "15.5G", "512M".
pub fn format_bytes(bytes: u64) -> (label: String)
    ensures
        label@ == bytes_label(bytes as nat),
{
    let f = f64_value(bytes);
    let mut out: Vec<char> = Vec::new();
    if f >= 1073741824 {
        let tenths = rounded_half_even(f * 10, 1073741824);
        push_decimal(&mut out, (tenths / 10) as u64);
        out.push('.');
        out.push(digit_char((tenths % 10) as u64));
        out.push('G');
    } else {
        let whole = rounded_half_even(f, 1048576);
        push_decimal(&mut out, whole as u64);
        out.push('M');
    }
    assert(out@ =~= bytes_label(bytes as nat));
    string_of(&out)
}

/// The core grid: how many rows of eight cells the cores fill, and the
/// blank columns before a row so that its 40 columns sit in the middle of an
/// area `width` columns wide (at least one).
pub open spec fn core_grid(cpu_count: nat, width: nat) -> (nat, nat) {
    let rows = (cpu_count + 7) / 8;
    let pad = if width >= 40 && (width - 40) / 2 >= 1 {
        ((width - 40) / 2) as nat
    } else {
        1
    };
    (rows, pad)
}

proof fn lemma_spacing_bound(n: nat)
    requires
        n >= f64_exact_limit(),
    ensures
        f64_spacing(n) * 4503599627370496 <= n,
    decreases n,
{
    let h = n / 2;
    assert(f64_spacing(n) == 2 * f64_spacing(h));
    if h >= f64_exact_limit() {
        lemma_spacing_bound(h);
        let sh = f64_spacing(h);
        assert(2 * sh * 4503599627370496 <= n) by (nonlinear_arith)
            requires
                sh * 4503599627370496 <= h,
                h == n / 2,
        ;
        assert(f64_spacing(n) * 4503599627370496 == 2 * sh * 4503599627370496);
    } else {
        assert(f64_spacing(h) == 1);
    }
}

/// Counts below 2^53 convert to `f64` exactly.
pub proof fn f64_exact_below_limit(n: nat)
    requires
        n < f64_exact_limit(),
    ensures
        f64_of(n) == n,
{
    assert(f64_spacing(n) == 1);
    assert(round_half_even(n, 1) == n);
}

/// The label is in gibibytes ("…G") exactly when the count is at least one
/// gibibyte, and in mebibytes ("…M") otherwise.
pub proof fn gib_label_iff_at_least_one_gib(bytes: nat)
    ensures
        bytes_label(bytes).len() > 0,
        bytes_label(bytes).last() == 'G' <==> bytes >= gib(),
        bytes_label(bytes).last() == 'M' <==> bytes < gib(),
{
    if bytes >= f64_exact_limit() {
        lemma_spacing_bound(bytes);
        lemma_spacing_positive(bytes);
        let u = f64_spacing(bytes);
        let q = bytes / u;
        assert(q >= 4503599627370496) by (nonlinear_arith)
            requires
                u * 4503599627370496 <= bytes,
                u >= 1,
                q == bytes / u,
        ;
        let r = round_half_even(bytes, u);
        assert(r >= q);
        assert(r * u >= 4503599627370496) by (nonlinear_arith)
            requires
                r >= 4503599627370496,
                u >= 1,
        ;
        assert(f64_of(bytes) >= gib());
    } else {
        assert(f64_spacing(bytes) == 1);
        assert(round_half_even(bytes, 1) == bytes);
        assert(f64_of(bytes) == bytes);
    }
    let f = f64_of(bytes);
    if f >= gib() {
        let tenths = round_half_even(f * 10, gib());
        let lbl = decimal(tenths / 10) + seq!['.', digit(tenths % 10), 'G'];
        assert(lbl.last() == 'G');
    } else {
        let lbl = decimal(round_half_even(f, mib())) + seq!['M'];
        assert(lbl.last() == 'M');
    }
}

/// Lays out the per-core grid.
pub fn core_grid_layout(cpu_count: usize, width: u16) -> (out: (usize, usize))
    requires
        cpu_count + 7 <= usize::MAX,
    ensures
        (out.0 as nat, out.1 as nat) == core_grid(cpu_count as nat, width as nat),
{
    let rows = (cpu_count + 7) / 8;
    let w = width as usize;
    let pad = if w >= 40 && (w - 40) / 2 >= 1 {
        (w - 40) / 2
    } else {
        1
    };
    (rows, pad)
}

} // verus!
