//! Character-level helpers: whitespace, whitespace-separated words, numerals,
//! comparison of character ranges against literals, and decimal rendering.

use vstd::prelude::*;
use vstd::std_specs::iter::IteratorSpec;
use vstd::string::StringExecFns;

verus! {

broadcast use vstd::string::group_string_axioms;

/// Unicode `White_Space` characters, as `char::is_whitespace` classifies them.
pub open spec fn is_ws(c: char) -> bool {
    ('\t' <= c && c <= '\r') || c == ' ' || c == '\u{85}' || c == '\u{a0}' || c == '\u{1680}'
        || ('\u{2000}' <= c && c <= '\u{200a}') || c == '\u{2028}' || c == '\u{2029}'
        || c == '\u{202f}' || c == '\u{205f}' || c == '\u{3000}'
}

pub fn is_whitespace(c: char) -> (r: bool)
    ensures
        r == is_ws(c),
{
    ('\t' <= c && c <= '\r') || c == ' ' || c == '\u{85}' || c == '\u{a0}' || c == '\u{1680}'
        || ('\u{2000}' <= c && c <= '\u{200a}') || c == '\u{2028}' || c == '\u{2029}'
        || c == '\u{202f}' || c == '\u{205f}' || c == '\u{3000}'
}

/// The characters of `s`, in order.
pub fn chars_of(s: &str) -> (r: Vec<char>)
    ensures
        r@ == s@,
{
    let mut out: Vec<char> = Vec::new();
    for c in it: s.chars()
        invariant
            out@ == it.seq().take(it.index() as int),
    {
        out.push(c);
    }
    assert(out@ == s@);
    out
}

/// The whitespace-separated words of `s` from index `i` on, where `w` is the
/// start of a word still open at `i` (or negative when none is open).
pub open spec fn tokens_from(s: Seq<char>, i: int, w: int) -> Seq<Seq<char>>
    decreases s.len() - i,
{
    if i >= s.len() {
        if w >= 0 {
            seq![s.subrange(w, s.len() as int)]
        } else {
            seq![]
        }
    } else if is_ws(s[i]) {
        if w >= 0 {
            seq![s.subrange(w, i)] + tokens_from(s, i + 1, -1)
        } else {
            tokens_from(s, i + 1, -1)
        }
    } else {
        tokens_from(s, i + 1, if w >= 0 { w } else { i })
    }
}

/// The whitespace-separated words of `s`, in order (as `str::split_whitespace`).
pub open spec fn tokens(s: Seq<char>) -> Seq<Seq<char>> {
    tokens_from(s, 0, -1)
}

/// The words denoted by a list of bounds into `s`.
pub open spec fn spans(s: Seq<char>, r: Seq<(usize, usize)>) -> Seq<Seq<char>> {
    Seq::new(r.len(), |k: int| s.subrange(r[k].0 as int, r[k].1 as int))
}

pub open spec fn spans_within(s: Seq<char>, r: Seq<(usize, usize)>) -> bool {
    forall|k: int| 0 <= k < r.len() ==> (#[trigger] r[k]).0 <= r[k].1 <= s.len()
}

/// Bounds of the whitespace-separated words of `s`.
pub fn token_bounds(s: &Vec<char>) -> (r: Vec<(usize, usize)>)
    ensures
        spans_within(s@, r@),
        spans(s@, r@) == tokens(s@),
{
    let mut r: Vec<(usize, usize)> = Vec::new();
    let mut i: usize = 0;
    let mut open = false;
    let mut w: usize = 0;
    while i < s.len()
        invariant
            i <= s.len(),
            open ==> w < i,
            spans_within(s@, r@),
            spans(s@, r@) + tokens_from(s@, i as int, if open { w as int } else { -1 })
                == tokens(s@),
        decreases s.len() - i,
    {
        let ghost before = r@;
        if is_whitespace(s[i]) {
            if open {
                r.push((w, i));
                assert(spans(s@, r@) == spans(s@, before).push(s@.subrange(w as int, i as int)));
                open = false;
            }
        } else if !open {
            open = true;
            w = i;
        }
        i = i + 1;
    }
    if open {
        let ghost before = r@;
        r.push((w, i));
        assert(spans(s@, r@) == spans(s@, before).push(s@.subrange(w as int, i as int)));
    }
    r
}

/// True when `s[from..to]` holds exactly the characters of `lit`.
pub fn span_is(s: &Vec<char>, from: usize, to: usize, lit: &str) -> (r: bool)
    requires
        from <= to <= s.len(),
    ensures
        r == (s@.subrange(from as int, to as int) == lit@),
{
    let n = lit.unicode_len();
    if to - from != n {
        return false;
    }
    let mut k: usize = 0;
    while k < n
        invariant
            n == lit@.len(),
            to - from == n,
            from <= to <= s.len(),
            k <= n,
            forall|j: int| 0 <= j < k ==> s@[from + j] == lit@[j],
        decreases n - k,
    {
        if s[from + k] != lit.get_char(k) {
            assert(s@.subrange(from as int, to as int)[k as int] != lit@[k as int]);
            return false;
        }
        k = k + 1;
    }
    assert(s@.subrange(from as int, to as int) =~= lit@);
    true
}

pub open spec fn is_digit(c: char) -> bool {
    '0' <= c <= '9'
}

pub open spec fn digit_value(c: char) -> nat {
    (c as u32 - '0' as u32) as nat
}

/// The number written by the decimal digits `d` (zero when empty).
pub open spec fn digits_value(d: Seq<char>) -> nat
    decreases d.len(),
{
    if d.len() == 0 {
        0
    } else {
        digits_value(d.drop_last()) * 10 + digit_value(d.last())
    }
}

/// The digits of a numeral, past an optional leading `+`.
pub open spec fn unsigned_digits(t: Seq<char>) -> Seq<char> {
    if t.len() > 0 && t[0] == '+' {
        t.drop_first()
    } else {
        t
    }
}

/// One or more decimal digits.
pub open spec fn is_numeral(d: Seq<char>) -> bool {
    d.len() > 0 && forall|k: int| 0 <= k < d.len() ==> is_digit(#[trigger] d[k])
}

/// The value of `t` read as a `usize` the way `str::parse` reads it: an
/// optional `+`, one or more decimal digits, and a value that fits.
pub open spec fn index_value(t: Seq<char>) -> Option<usize> {
    if is_numeral(unsigned_digits(t)) && digits_value(unsigned_digits(t)) <= usize::MAX {
        Some(digits_value(unsigned_digits(t)) as usize)
    } else {
        None
    }
}

proof fn lemma_digits_value_prefix(d: Seq<char>, k: int)
    requires
        0 <= k <= d.len(),
    ensures
        digits_value(d.subrange(0, k)) <= digits_value(d),
    decreases d.len() - k,
{
    if k < d.len() {
        lemma_digits_value_prefix(d, k + 1);
        let p = d.subrange(0, k + 1);
        assert(p.drop_last() == d.subrange(0, k));
        assert(digits_value(p) == digits_value(d.subrange(0, k)) * 10 + digit_value(p.last()));
    } else {
        assert(d.subrange(0, k) == d);
    }
}

/// Reads `s[from..to]` as a `usize` numeral.
pub fn parse_index(s: &Vec<char>, from: usize, to: usize) -> (r: Option<usize>)
    requires
        from <= to <= s.len(),
    ensures
        r == index_value(s@.subrange(from as int, to as int)),
{
    let ghost t = s@.subrange(from as int, to as int);
    let mut start = from;
    if from < to && s[from] == '+' {
        start = from + 1;
    }
    let ghost d = unsigned_digits(t);
    assert(d == s@.subrange(start as int, to as int));
    if start == to {
        return None;
    }
    let mut v: usize = 0;
    let mut k: usize = start;
    while k < to
        invariant
            from <= start <= k <= to <= s.len(),
            d == s@.subrange(start as int, to as int),
            d == unsigned_digits(t),
            t == s@.subrange(from as int, to as int),
            forall|j: int| 0 <= j < k - start ==> is_digit(d[j]),
            v == digits_value(d.subrange(0, k - start)),
        decreases to - k,
    {
        let c = s[k];
        if !('0' <= c && c <= '9') {
            let ghost j = k - start;
            assert(!is_digit(d[j]));
            assert(index_value(t) is None);
            return None;
        }
        let dv = (c as u32 - '0' as u32) as usize;
        let ghost p = d.subrange(0, k - start + 1);
        assert(p.drop_last() == d.subrange(0, k - start));
        assert(digits_value(p) == v * 10 + dv);
        if v > (usize::MAX - dv) / 10 {
            assert(v * 10 + dv > usize::MAX) by (nonlinear_arith)
                requires
                    v > (usize::MAX - dv) / 10,
                    dv <= 9,
            ;
            proof {
                lemma_digits_value_prefix(d, k - start + 1);
            }
            assert(digits_value(d) > usize::MAX);
            assert(index_value(t) is None);
            return None;
        }
        assert(v * 10 + dv <= usize::MAX) by (nonlinear_arith)
            requires
                v <= (usize::MAX - dv) / 10,
                dv <= 9,
        ;
        v = v * 10 + dv;
        k = k + 1;
    }
    assert(d.subrange(0, k - start) == d);
    Some(v)
}

/// The decimal digit `d` (for `d < 10`).
pub open spec fn digit_char(d: nat) -> char {
    if d == 0 {
        '0'
    } else if d == 1 {
        '1'
    } else if d == 2 {
        '2'
    } else if d == 3 {
        '3'
    } else if d == 4 {
        '4'
    } else if d == 5 {
        '5'
    } else if d == 6 {
        '6'
    } else if d == 7 {
        '7'
    } else if d == 8 {
        '8'
    } else {
        '9'
    }
}

/// `n` written in decimal, without leading zeros.
pub open spec fn dec(n: nat) -> Seq<char>
    decreases n,
{
    if n < 10 {
        seq![digit_char(n)]
    } else {
        dec(n / 10).push(digit_char(n % 10))
    }
}

fn digit_str(d: usize) -> (r: &'static str)
    requires
        d < 10,
    ensures
        r@ == seq![digit_char(d as nat)],
{
    proof {
        reveal_strlit("0");
        reveal_strlit("1");
        reveal_strlit("2");
        reveal_strlit("3");
        reveal_strlit("4");
        reveal_strlit("5");
        reveal_strlit("6");
        reveal_strlit("7");
        reveal_strlit("8");
        reveal_strlit("9");
    }
    let r = if d == 0 {
        "0"
    } else if d == 1 {
        "1"
    } else if d == 2 {
        "2"
    } else if d == 3 {
        "3"
    } else if d == 4 {
        "4"
    } else if d == 5 {
        "5"
    } else if d == 6 {
        "6"
    } else if d == 7 {
        "7"
    } else if d == 8 {
        "8"
    } else {
        "9"
    };
    assert(r@ =~= seq![digit_char(d as nat)]);
    r
}

/// The decimal numeral of `n`.
pub fn decimal(n: usize) -> (r: String)
    ensures
        r@ == dec(n as nat),
    decreases n,
{
    if n < 10 {
        String::from_str(digit_str(n))
    } else {
        let head = decimal(n / 10);
        let r = head.concat(digit_str(n % 10));
        assert(r@ =~= dec(n as nat));
        r
    }
}

proof fn lemma_dec_len(n: nat)
    ensures
        dec(n).len() >= 1,
        n >= 10 ==> dec(n).len() >= 2,
    decreases n,
{
    if n >= 10 {
        lemma_dec_len(n / 10);
    }
}

/// Different numbers have different numerals.
pub proof fn lemma_dec_injective(a: nat, b: nat)
    requires
        dec(a) == dec(b),
    ensures
        a == b,
    decreases a,
{
    lemma_dec_len(a);
    lemma_dec_len(b);
    if a >= 10 && b >= 10 {
        assert(dec(a).drop_last() == dec(a / 10));
        assert(dec(b).drop_last() == dec(b / 10));
        lemma_dec_injective(a / 10, b / 10);
        assert(digit_char(a % 10) == dec(a).last());
        assert(a % 10 == b % 10);
        assert(a == 10 * (a / 10) + a % 10) by (nonlinear_arith);
        assert(b == 10 * (b / 10) + b % 10) by (nonlinear_arith);
    } else if a < 10 && b < 10 {
        assert(dec(a)[0] == digit_char(a));
        assert(dec(b)[0] == digit_char(b));
    }
}

} // verus!
