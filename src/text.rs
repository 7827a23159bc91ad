//! Reading values out of the text of kernel-exposed device files. Every
//! failure folds into absence: a file that could not be read is handed in as
//! empty text, and text that does not hold a number gives no number.

use vstd::prelude::*;
use vstd::string::*;

verus! {

/// Unicode whitespace (the White_Space property), which trimming removes.
pub open spec fn is_space(c: char) -> bool {
    ||| '\t' <= c && c <= '\r'
    ||| c == ' '
    ||| c == '\u{85}'
    ||| c == '\u{A0}'
    ||| c == '\u{1680}'
    ||| '\u{2000}' <= c && c <= '\u{200A}'
    ||| c == '\u{2028}'
    ||| c == '\u{2029}'
    ||| c == '\u{202F}'
    ||| c == '\u{205F}'
    ||| c == '\u{3000}'
}

pub open spec fn is_digit(c: char) -> bool {
    '0' <= c && c <= '9'
}

pub open spec fn digit_value(c: char) -> nat {
    (c as u32 - '0' as u32) as nat
}

pub open spec fn trim_start(s: Seq<char>) -> Seq<char>
    decreases s.len(),
{
    if s.len() > 0 && is_space(s[0]) {
        trim_start(s.skip(1))
    } else {
        s
    }
}

pub open spec fn trim_end(s: Seq<char>) -> Seq<char>
    decreases s.len(),
{
    if s.len() > 0 && is_space(s.last()) {
        trim_end(s.drop_last())
    } else {
        s
    }
}

/// The text without its leading and trailing whitespace.
pub open spec fn trimmed(s: Seq<char>) -> Seq<char> {
    trim_end(trim_start(s))
}

/// The number that a run of decimal digits spells.
pub open spec fn digits_value(d: Seq<char>) -> nat
    decreases d.len(),
{
    if d.len() == 0 {
        0
    } else {
        digits_value(d.drop_last()) * 10 + digit_value(d.last())
    }
}

pub open spec fn all_digits(d: Seq<char>) -> bool {
    forall|i: int| 0 <= i < d.len() ==> is_digit(#[trigger] d[i])
}

/// The digits of a number's text: an optional leading '+' is dropped.
pub open spec fn unsigned_digits(t: Seq<char>) -> Seq<char> {
    if t.len() > 0 && t[0] == '+' {
        t.skip(1)
    } else {
        t
    }
}

/// The unsigned 64-bit number that `s` holds once trimmed: one or more
/// decimal digits after an optional '+', with a value that fits.
pub open spec fn number_of(s: Seq<char>) -> Option<u64> {
    let d = unsigned_digits(trimmed(s));
    if d.len() > 0 && all_digits(d) && digits_value(d) <= u64::MAX {
        Some(digits_value(d) as u64)
    } else {
        None
    }
}

/// Position of the first `c` at or after `from`, or the length if none.
pub open spec fn first_at(s: Seq<char>, c: char, from: int) -> int
    decreases s.len() - from,
{
    if from >= s.len() {
        s.len() as int
    } else if from >= 0 && s[from] == c {
        from
    } else {
        first_at(s, c, from + 1)
    }
}

/// Position of the last `c` before `upto`, or -1 if none.
pub open spec fn last_before(s: Seq<char>, c: char, upto: int) -> int
    decreases upto,
{
    if upto <= 0 {
        -1
    } else if upto <= s.len() && s[upto - 1] == c {
        upto - 1
    } else {
        last_before(s, c, upto - 1)
    }
}

/// The first line of a performance-level listing that carries the active
/// marker '*', without its line break.
pub open spec fn active_line(s: Seq<char>) -> Option<Seq<char>> {
    let k = first_at(s, '*', 0);
    if k == s.len() {
        None
    } else {
        Some(s.subrange(last_before(s, '\n', k) + 1, first_at(s, '\n', k)))
    }
}

/// The value field of a level line such as `1: 1200Mhz *`: what stands
/// after the first ':' and before the next 'M'.
pub open spec fn level_field(line: Seq<char>) -> Seq<char> {
    let c = first_at(line, ':', 0);
    if c == line.len() {
        Seq::empty()
    } else {
        let rest = line.skip(c + 1);
        rest.subrange(0, first_at(rest, 'M', 0))
    }
}

/// The frequency in MHz of the active level of a performance-level listing.
pub open spec fn active_level_mhz(s: Seq<char>) -> Option<u64> {
    match active_line(s) {
        Some(line) => number_of(level_field(line)),
        None => None,
    }
}

/// Whether `part` occurs in `s`.
pub open spec fn has_part(s: Seq<char>, part: Seq<char>) -> bool {
    exists|i: int| 0 <= i <= s.len() - part.len() && #[trigger] s.subrange(i, i + part.len()) == part
}

/// Whether `part` occurs in `s`.
pub fn contains_text(s: &str, part: &str) -> (r: bool)
    ensures
        r == has_part(s@, part@),
{
    let n = s.unicode_len();
    let m = part.unicode_len();
    if m > n {
        return false;
    }
    let mut i: usize = 0;
    while i <= n - m
        invariant
            m <= n,
            n == s@.len(),
            m == part@.len(),
            i <= n - m + 1,
            forall|j: int| 0 <= j < i ==> #[trigger] s@.subrange(j, j + m) != part@,
        decreases n - m + 1 - i,
    {
        let mut k: usize = 0;
        while k < m && s.get_char(i + k) == part.get_char(k)
            invariant
                m <= n,
                i <= n - m,
                n == s@.len(),
                m == part@.len(),
                k <= m,
                forall|l: int| 0 <= l < k ==> s@[i + l] == part@[l],
            decreases m - k,
        {
            k += 1;
        }
        if k == m {
            assert(s@.subrange(i as int, i + m) =~= part@);
            return true;
        }
        assert(s@.subrange(i as int, i + m)[k as int] != part@[k as int]);
        i += 1;
    }
    false
}

/// A hardware-monitor frequency reading: a file named `freq*_input`.
pub open spec fn freq_input_name(n: Seq<char>) -> bool {
    n.len() >= 10 && n.subrange(0, 4) == "freq"@ && n.subrange(n.len() - 6, n.len() as int)
        == "_input"@
}

/// Whether a file of a hardware-monitor directory is a frequency reading.
pub fn is_freq_input(name: &str) -> (r: bool)
    ensures
        r == freq_input_name(name@),
{
    let n = name.unicode_len();
    if n < 10 {
        return false;
    }
    let head = String::from_str(name.substring_char(0, 4));
    let tail = String::from_str(name.substring_char(n - 6, n));
    head == String::from_str("freq") && tail == String::from_str("_input")
}

fn is_space_char(c: char) -> (r: bool)
    ensures
        r == is_space(c),
{
    ('\t' <= c && c <= '\r') || c == ' ' || c == '\u{85}' || c == '\u{A0}' || c == '\u{1680}'
        || ('\u{2000}' <= c && c <= '\u{200A}') || c == '\u{2028}' || c == '\u{2029}'
        || c == '\u{202F}' || c == '\u{205F}' || c == '\u{3000}'
}

/// The text without its leading and trailing whitespace.
pub fn trim_text(s: &str) -> (r: String)
    ensures
        r@ == trimmed(s@),
{
    let n = s.unicode_len();
    let mut a: usize = 0;
    assert(s@.subrange(0, n as int) =~= s@);
    while a < n && is_space_char(s.get_char(a))
        invariant
            a <= n,
            n == s@.len(),
            trim_start(s@.subrange(a as int, n as int)) == trim_start(s@),
        decreases n - a,
    {
        assert(s@.subrange(a as int, n as int).skip(1) =~= s@.subrange(a + 1, n as int));
        a += 1;
    }
    let ghost front = s@.subrange(a as int, n as int);
    assert(trim_start(front) == front);
    let mut b: usize = n;
    while b > a && is_space_char(s.get_char(b - 1))
        invariant
            a <= b <= n,
            n == s@.len(),
            trim_end(s@.subrange(a as int, b as int)) == trimmed(s@),
        decreases b,
    {
        assert(s@.subrange(a as int, b as int).drop_last() =~= s@.subrange(a as int, b - 1));
        b -= 1;
    }
    let t = s.substring_char(a, b);
    String::from_str(t)
}

proof fn lemma_value_grows(d: Seq<char>, k: int)
    requires
        0 <= k <= d.len(),
        all_digits(d),
    ensures
        digits_value(d.subrange(0, k)) <= digits_value(d),
    decreases d.len(),
{
    if k == d.len() {
        assert(d.subrange(0, k) =~= d);
    } else {
        lemma_value_grows(d.drop_last(), k);
        assert(d.drop_last().subrange(0, k) =~= d.subrange(0, k));
        assert(is_digit(d[d.len() - 1]));
    }
}

/// The number held in the text of a device file, if there is one.
pub fn parse_number(s: &str) -> (r: Option<u64>)
    ensures
        r == number_of(s@),
{
    let t = trim_text(s);
    let ts = t.as_str();
    let n = ts.unicode_len();
    let mut i: usize = 0;
    if n > 0 && ts.get_char(0) == '+' {
        i = 1;
    }
    let ghost d = unsigned_digits(ts@);
    let ghost start = i as int;
    assert(d =~= ts@.subrange(start, n as int));
    if i == n {
        return None;
    }
    let mut acc: u64 = 0;
    while i < n
        invariant
            0 <= start <= 1,
            start <= i <= n,
            n == ts@.len(),
            d.len() == n - start,
            d == unsigned_digits(trimmed(s@)),
            d == ts@.subrange(start, n as int),
            acc as nat == digits_value(d.subrange(0, i - start)),
            all_digits(d.subrange(0, i - start)),
        decreases n - i,
    {
        let c = ts.get_char(i);
        assert(d.subrange(0, i - start + 1).drop_last() =~= d.subrange(0, i - start));
        assert(d[i - start] == c);
        if !('0' <= c && c <= '9') {
            assert(!is_digit(d[i - start]));
            assert(!all_digits(d));
            return None;
        }
        let v = (c as u32 - '0' as u32) as u64;
        if acc > (u64::MAX - v) / 10 {
            proof {
                let sub = d.subrange(0, i - start + 1);
                assert(sub.last() == c);
                assert(digits_value(sub) == acc * 10 + v);
                assert(acc * 10 + v > u64::MAX) by (nonlinear_arith)
                    requires
                        acc > (u64::MAX - v) / 10,
                        v <= 9,
                ;
                assert(all_digits(sub));
                if all_digits(d) {
                    lemma_value_grows(d, i - start + 1);
                }
            }
            return None;
        }
        acc = acc * 10 + v;
        i += 1;
    }
    assert(d.subrange(0, n - start) =~= d);
    Some(acc)
}

fn find_from(s: &str, n: usize, c: char, from: usize) -> (r: usize)
    requires
        n == s@.len(),
        from <= n,
    ensures
        r == first_at(s@, c, from as int),
        from <= r <= n,
{
    let mut i = from;
    while i < n && s.get_char(i) != c
        invariant
            from <= i <= n,
            n == s@.len(),
            first_at(s@, c, i as int) == first_at(s@, c, from as int),
        decreases n - i,
    {
        i += 1;
    }
    i
}

fn find_back(s: &str, n: usize, c: char, upto: usize) -> (r: usize)
    requires
        n == s@.len(),
        upto <= n,
    ensures
        r == last_before(s@, c, upto as int) + 1,
        r <= upto,
{
    let mut j = upto;
    while j > 0 && s.get_char(j - 1) != c
        invariant
            j <= upto <= n,
            n == s@.len(),
            last_before(s@, c, j as int) == last_before(s@, c, upto as int),
        decreases j,
    {
        j -= 1;
    }
    j
}

/// The frequency of the active level in the text of a performance-level
/// listing (lines such as `0: 300Mhz` and `1: 1200Mhz *`).
pub fn parse_active_level(s: &str) -> (r: Option<u64>)
    ensures
        r == active_level_mhz(s@),
{
    let n = s.unicode_len();
    let k = find_from(s, n, '*', 0);
    if k == n {
        return None;
    }
    let a = find_back(s, n, '\n', k);
    let b = find_from(s, n, '\n', k);
    let line = s.substring_char(a, b);
    let m = line.unicode_len();
    let c = find_from(line, m, ':', 0);
    if c == m {
        let empty = String::new();
        assert(level_field(line@) =~= empty@);
        return parse_number(empty.as_str());
    }
    let rest = line.substring_char(c + 1, m);
    assert(rest@ =~= line@.skip(c + 1));
    let e = find_from(rest, m - c - 1, 'M', 0);
    let field = rest.substring_char(0, e);
    parse_number(field)
}

} // verus!
