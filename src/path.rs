//! The history-to-path transform: a rolling series of samples becomes a
//! polyline and a closed area outline in a fixed 765 x 280 frame.
//!
//! Coordinates are written with two decimals. Internally they are held in
//! hundredths of a unit: the frame spans x in [0, 76500] and the baseline lies
//! at y = 28000; a full-scale sample maps to y = 500.

use vstd::prelude::*;
use vstd::string::*;
use crate::fixed::{decimal, div_round, fixed, padded, pow10, push_fixed, round_div};

verus! {

/// One percentage point in sample units: samples are millionths of a percent.
pub const PERCENT: u64 = 1_000_000;

/// A full-scale sample, 100 percent.
pub const FULL: u64 = 100_000_000;

/// The sample brought into [0, FULL].
pub open spec fn clamped(v: u64) -> nat {
    if v > FULL {
        FULL as nat
    } else {
        v as nat
    }
}

/// Height of a sample in hundredths of a unit: 280 - 2.75 per percentage
/// point, rounded to the nearest hundredth.
pub open spec fn y_of(v: u64) -> nat {
    round_div((28_000 * PERCENT - 275 * clamped(v)) as nat, PERCENT as nat)
}

/// Horizontal position of sample `i` of `n` in hundredths of a unit:
/// `i / (n - 1) * 765`, rounded to the nearest hundredth.
pub open spec fn x_of(i: nat, n: nat) -> nat {
    round_div(76_500 * i, (n - 1) as nat)
}

/// The segment that draws to sample `i`.
pub open spec fn segment(h: Seq<u64>, i: int) -> Seq<char> {
    " L "@ + fixed(x_of(i as nat, h.len()), 2) + " "@ + fixed(y_of(h[i]), 2)
}

/// The polyline through the first `k` samples (at least the first one).
pub open spec fn polyline(h: Seq<u64>, k: int) -> Seq<char>
    decreases k,
{
    if k <= 1 {
        "M 0 "@ + fixed(y_of(h[0]), 2)
    } else {
        polyline(h, k - 1) + segment(h, k - 1)
    }
}

/// The two points and the close that turn the polyline into an area outline.
pub open spec fn closing() -> Seq<char> {
    " L 765.00 280.00 L 0.00 280.00 Z"@
}

/// The line path of a history: empty under two samples.
pub open spec fn line_path(h: Seq<u64>) -> Seq<char> {
    if h.len() < 2 {
        Seq::empty()
    } else {
        polyline(h, h.len() as int)
    }
}

/// The fill path of a history: the line closed down to the baseline.
pub open spec fn fill_path(h: Seq<u64>) -> Seq<char> {
    if h.len() < 2 {
        Seq::empty()
    } else {
        line_path(h) + closing()
    }
}

fn y_exec(v: u64) -> (r: u64)
    ensures
        r == y_of(v),
        500 <= r <= 28_000,
{
    let c: u128 = if v > FULL { FULL as u128 } else { v as u128 };
    let r = div_round(28_000 * (PERCENT as u128) - 275 * c, PERCENT as u128);
    proof { lemma_y_range(v); }
    r as u64
}

/// Builds the line and fill paths of a history of samples.
pub fn generate_svg_paths(history: &[u64]) -> (r: (String, String))
    ensures
        r.0@ == line_path(history@),
        r.1@ == fill_path(history@),
{
    let n = history.len();
    if n < 2 {
        return (String::new(), String::new());
    }
    let mut line = String::new();
    proof { reveal_strlit("M 0 "); }
    line.append("M 0 ");
    push_fixed(&mut line, y_exec(history[0]), 2);
    assert(line@ =~= polyline(history@, 1));
    let mut i: usize = 1;
    while i < n
        invariant
            1 <= i <= n,
            n == history@.len(),
            line@ == polyline(history@, i as int),
        decreases n - i,
    {
        let x = div_round(76_500 * (i as u128), (n - 1) as u128);
        proof { lemma_x_range(i as nat, (n - 1) as nat); }
        line.append(" L ");
        push_fixed(&mut line, x as u64, 2);
        line.append(" ");
        push_fixed(&mut line, y_exec(history[i]), 2);
        assert(line@ =~= polyline(history@, i + 1));
        i += 1;
    }
    let mut fill = line.clone();
    fill.append(" L 765.00 280.00 L 0.00 280.00 Z");
    (line, fill)
}

proof fn lemma_x_range(i: nat, m: nat)
    requires
        1 <= m,
        i <= m,
    ensures
        x_of(i, m + 1) <= 76_500,
{
    let a = 2 * (76_500 * i) + m;
    assert(a < (2 * m) * 76_501) by (nonlinear_arith)
        requires
            i <= m,
            m >= 1,
            a == 2 * (76_500 * i) + m,
    ;
    vstd::arithmetic::div_mod::lemma_multiply_divide_lt(a as int, (2 * m) as int, 76_501);
}

/// Every sample is drawn inside the frame: heights lie between 5.00 and
/// 280.00, whatever the raw sample was.
pub proof fn lemma_y_range(v: u64)
    ensures
        500 <= y_of(v) <= 28_000,
{
    let a = (28_000 * PERCENT - 275 * clamped(v)) as nat;
    assert(500 * PERCENT <= a <= 28_000 * PERCENT);
    assert(2 * a + PERCENT >= 2 * PERCENT * 500);
    assert(2 * a + PERCENT < 2 * PERCENT * 28_001);
    assert(y_of(v) == (2 * a + PERCENT) / (2 * PERCENT));
}

/// The paths depend on the history only through its length and its clamped
/// samples: equal histories always give identical paths, and a sample beyond
/// full scale draws as full scale.
pub proof fn lemma_paths_depend_on_clamped(a: Seq<u64>, b: Seq<u64>)
    requires
        a.len() == b.len(),
        forall|i: int| 0 <= i < a.len() ==> clamped(#[trigger] a[i]) == clamped(b[i]),
    ensures
        line_path(a) == line_path(b),
        fill_path(a) == fill_path(b),
{
    if a.len() >= 2 {
        lemma_polyline_clamped(a, b, a.len() as int);
    }
}

proof fn lemma_polyline_clamped(a: Seq<u64>, b: Seq<u64>, k: int)
    requires
        1 <= k <= a.len(),
        a.len() == b.len(),
        forall|i: int| 0 <= i < a.len() ==> clamped(#[trigger] a[i]) == clamped(b[i]),
    ensures
        polyline(a, k) == polyline(b, k),
    decreases k,
{
    assert(clamped(a[0]) == clamped(b[0]));
    if k > 1 {
        lemma_polyline_clamped(a, b, k - 1);
        assert(clamped(a[k - 1]) == clamped(b[k - 1]));
        assert(segment(a, k - 1) == segment(b, k - 1));
    }
}

/// With fewer than two samples there is nothing to draw.
pub proof fn lemma_short_history_empty(h: Seq<u64>)
    requires
        h.len() < 2,
    ensures
        line_path(h).len() == 0,
        fill_path(h).len() == 0,
{
}

/// How many times `c` occurs in `s`.
pub open spec fn count_char(s: Seq<char>, c: char) -> nat
    decreases s.len(),
{
    if s.len() == 0 {
        0
    } else {
        count_char(s.drop_last(), c) + if s.last() == c {
            1nat
        } else {
            0nat
        }
    }
}

proof fn lemma_count_add(a: Seq<char>, b: Seq<char>, c: char)
    ensures
        count_char(a + b, c) == count_char(a, c) + count_char(b, c),
    decreases b.len(),
{
    if b.len() == 0 {
        assert(a + b =~= a);
    } else {
        assert((a + b).drop_last() =~= a + b.drop_last());
        lemma_count_add(a, b.drop_last(), c);
    }
}

proof fn lemma_count_absent(s: Seq<char>, c: char)
    requires
        forall|i: int| 0 <= i < s.len() ==> s[i] != c,
    ensures
        count_char(s, c) == 0,
    decreases s.len(),
{
    if s.len() > 0 {
        lemma_count_absent(s.drop_last(), c);
    }
}

proof fn lemma_decimal_has_no_l(n: nat)
    ensures
        forall|i: int| 0 <= i < decimal(n).len() ==> decimal(n)[i] != 'L',
    decreases n,
{
    if n >= 10 {
        lemma_decimal_has_no_l(n / 10);
        let d = decimal(n);
        assert forall|i: int| 0 <= i < d.len() implies d[i] != 'L' by {
            if i < d.len() - 1 {
                assert(d[i] == decimal(n / 10)[i]);
            }
        }
    }
}

proof fn lemma_padded_has_no_l(n: nat, places: nat)
    ensures
        forall|i: int| 0 <= i < padded(n, places).len() ==> padded(n, places)[i] != 'L',
    decreases places,
{
    if places > 0 {
        lemma_padded_has_no_l(n / 10, (places - 1) as nat);
        let d = padded(n, places);
        assert forall|i: int| 0 <= i < d.len() implies d[i] != 'L' by {
            if i < d.len() - 1 {
                assert(d[i] == padded(n / 10, (places - 1) as nat)[i]);
            }
        }
    }
}

proof fn lemma_fixed_count(n: nat)
    ensures
        count_char(fixed(n, 2), 'L') == 0,
{
    let p = pow10(2);
    lemma_decimal_has_no_l(n / p);
    lemma_padded_has_no_l(n % p, 2);
    let s = fixed(n, 2);
    assert(s == decimal(n / p) + seq!['.'] + padded(n % p, 2));
    assert forall|i: int| 0 <= i < s.len() implies s[i] != 'L' by {
        let d = decimal(n / p);
        if i < d.len() {
            assert(s[i] == d[i]);
        } else if i == d.len() {
            assert(s[i] == '.');
        } else {
            assert(s[i] == padded(n % p, 2)[i - d.len() - 1]);
        }
    }
    lemma_count_absent(s, 'L');
}

proof fn lemma_polyline_count(h: Seq<u64>, k: int)
    requires
        1 <= k <= h.len(),
    ensures
        count_char(polyline(h, k), 'L') == k - 1,
    decreases k,
{
    reveal_strlit("M 0 ");
    reveal_strlit(" L ");
    reveal_strlit(" ");
    if k <= 1 {
        lemma_count_absent("M 0 "@, 'L');
        lemma_fixed_count(y_of(h[0]));
        lemma_count_add("M 0 "@, fixed(y_of(h[0]), 2), 'L');
    } else {
        lemma_polyline_count(h, k - 1);
        let x = fixed(x_of((k - 1) as nat, h.len()), 2);
        let y = fixed(y_of(h[k - 1]), 2);
        lemma_fixed_count(x_of((k - 1) as nat, h.len()));
        lemma_fixed_count(y_of(h[k - 1]));
        assert(count_char(" L "@, 'L') == 1) by {
            reveal_with_fuel(count_char, 4);
        }
        lemma_count_absent(" "@, 'L');
        lemma_count_add(" L "@, x, 'L');
        lemma_count_add(" L "@ + x, " "@, 'L');
        lemma_count_add(" L "@ + x + " "@, y, 'L');
        lemma_count_add(polyline(h, k - 1), segment(h, k - 1), 'L');
    }
}

/// The paths of a history of `n` samples draw one segment to each sample
/// after the first: the line holds `n - 1` segment commands, and the fill two
/// more, down to the baseline and back.
pub proof fn lemma_segment_count(h: Seq<u64>)
    requires
        h.len() >= 2,
    ensures
        count_char(line_path(h), 'L') == h.len() - 1,
        count_char(fill_path(h), 'L') == h.len() + 1,
{
    lemma_polyline_count(h, h.len() as int);
    reveal_strlit(" L 765.00 280.00");
    reveal_strlit(" L 0.00 280.00 Z");
    reveal_strlit(" L 765.00 280.00 L 0.00 280.00 Z");
    reveal_strlit(" L ");
    reveal_strlit("765.00 280.00");
    reveal_strlit("0.00 280.00 Z");
    let a = " L "@;
    let b = "765.00 280.00"@;
    let c = "0.00 280.00 Z"@;
    assert(closing() =~= a + b + a + c);
    assert(count_char(a, 'L') == 1) by {
        reveal_with_fuel(count_char, 4);
    }
    lemma_count_absent(b, 'L');
    lemma_count_absent(c, 'L');
    lemma_count_add(a, b, 'L');
    lemma_count_add(a + b, a, 'L');
    lemma_count_add(a + b + a, c, 'L');
    lemma_count_add(line_path(h), closing(), 'L');
}

} // verus!
