//! Recognisers for numeric literals, used where a label must not look like a
//! number.
use vstd::prelude::*;

use crate::text;
use crate::text::chars_of;

verus! {

pub open spec fn is_digit(ch: char) -> bool {
    '0' <= ch && ch <= '9'
}

pub open spec fn all_digits(s: Seq<char>) -> bool {
    forall|i: int| 0 <= i < s.len() ==> is_digit(#[trigger] s[i])
}

pub open spec fn is_sign(ch: char) -> bool {
    ch == '+' || ch == '-'
}

/// The text behind an optional sign.
pub open spec fn unsigned(s: Seq<char>) -> Seq<char> {
    if s.len() > 0 && is_sign(s[0]) {
        s.skip(1)
    } else {
        s
    }
}

/// Digits, with at most one point among them, and at least one digit. The
/// integral digits end at `d`.
pub open spec fn mantissa_at(s: Seq<char>, d: int) -> bool {
    &&& 0 <= d <= s.len()
    &&& all_digits(s.take(d))
    &&& if d == s.len() {
        d > 0
    } else {
        s[d] == '.' && all_digits(s.skip(d + 1)) && s.len() > 1
    }
}

pub open spec fn mantissa(s: Seq<char>) -> bool {
    exists|d: int| mantissa_at(s, d)
}

/// A scaling part: `e` or `E`, an optional sign, digits.
pub open spec fn exponent(s: Seq<char>) -> bool {
    &&& s.len() > 0
    &&& s[0] == 'e' || s[0] == 'E'
    &&& unsigned(s.skip(1)).len() > 0
    &&& all_digits(unsigned(s.skip(1)))
}

/// A mantissa of `m` characters and, if anything follows, an exponent.
pub open spec fn number_at(s: Seq<char>, m: int) -> bool {
    &&& 0 <= m <= s.len()
    &&& mantissa(s.take(m))
    &&& m == s.len() || exponent(s.skip(m))
}

pub open spec fn number(s: Seq<char>) -> bool {
    exists|m: int| number_at(s, m)
}

pub open spec fn ascii_lower(ch: char) -> char {
    if 'A' <= ch && ch <= 'Z' {
        (ch as u32 + 32) as char
    } else {
        ch
    }
}

pub open spec fn lowered(s: Seq<char>) -> Seq<char> {
    s.map_values(|ch: char| ascii_lower(ch))
}

/// The named values, in any letter case.
pub open spec fn named_value(s: Seq<char>) -> bool {
    lowered(s) == "inf"@ || lowered(s) == "infinity"@ || lowered(s) == "nan"@
}

/// The texts that the standard library reads as a floating-point value.
pub open spec fn float_literal(s: Seq<char>) -> bool {
    named_value(unsigned(s)) || number(unsigned(s))
}

/// The value of a digit sequence.
pub open spec fn digits_value(s: Seq<char>) -> nat
    decreases s.len(),
{
    if s.len() == 0 {
        0
    } else {
        digits_value(s.drop_last()) * 10 + (s.last() as nat - 48) as nat
    }
}

/// The digits behind an optional plus.
pub open spec fn behind_plus(s: Seq<char>) -> Seq<char> {
    if s.len() > 0 && s[0] == '+' {
        s.skip(1)
    } else {
        s
    }
}

/// The texts that the standard library reads as an unsigned 64-bit integer.
pub open spec fn u64_literal(s: Seq<char>) -> bool {
    &&& behind_plus(s).len() > 0
    &&& all_digits(behind_plus(s))
    &&& digits_value(behind_plus(s)) <= u64::MAX
}

fn lower(ch: char) -> (r: char)
    ensures
        r == ascii_lower(ch),
{
    if 'A' <= ch && ch <= 'Z' {
        ((ch as u8) + 32u8) as char
    } else {
        ch
    }
}

/// Whether the characters from `lo` on spell `word`, letter case aside.
fn spells(v: &Vec<char>, lo: usize, word: &str) -> (r: bool)
    requires
        lo <= v.len(),
    ensures
        r == (lowered(v@.skip(lo as int)) == word@),
{
    let w = chars_of(word);
    let ghost tail = v@.skip(lo as int);
    if v.len() - lo != w.len() {
        assert(lowered(tail).len() == tail.len());
        return false;
    }
    let mut i: usize = 0;
    while i < w.len()
        invariant
            w@ == word@,
            lo <= v.len(),
            tail == v@.skip(lo as int),
            v.len() - lo == w.len(),
            i <= w.len(),
            forall|j: int| 0 <= j < i ==> ascii_lower(#[trigger] tail[j]) == word@[j],
        decreases w.len() - i,
    {
        if lower(v[lo + i]) != w[i] {
            assert(lowered(tail)[i as int] == ascii_lower(tail[i as int]));
            return false;
        }
        i += 1;
    }
    assert(lowered(tail) =~= word@);
    true
}

/// The end of the run of digits that starts at `lo`.
fn digits_end(v: &Vec<char>, lo: usize) -> (e: usize)
    requires
        lo <= v.len(),
    ensures
        lo <= e <= v.len(),
        forall|i: int| lo <= i < e ==> is_digit(#[trigger] v@[i]),
        e < v.len() ==> !is_digit(v@[e as int]),
{
    let mut e: usize = lo;
    while e < v.len() && '0' <= v[e] && v[e] <= '9'
        invariant
            lo <= e <= v.len(),
            forall|i: int| lo <= i < e ==> is_digit(#[trigger] v@[i]),
        decreases v.len() - e,
    {
        e += 1;
    }
    e
}

/// Where the mantissa of a number must end: behind the first run of digits,
/// and behind a point and the next run if a point follows.
proof fn lemma_mantissa_end(w: Seq<char>, m: int, a: int, b: int)
    requires
        number_at(w, m),
        0 <= a <= w.len(),
        forall|i: int| 0 <= i < a ==> is_digit(#[trigger] w[i]),
        a < w.len() ==> !is_digit(w[a]),
        a < w.len() && w[a] == '.' ==> {
            &&& a + 1 <= b <= w.len()
            &&& forall|i: int| a + 1 <= i < b ==> is_digit(#[trigger] w[i])
            &&& b < w.len() ==> !is_digit(w[b])
        },
        !(a < w.len() && w[a] == '.') ==> b == a,
    ensures
        m == b,
        a < w.len() && w[a] == '.' ==> mantissa_at(w.take(m), a),
        !(a < w.len() && w[a] == '.') ==> a > 0,
{
    let t = w.take(m);
    let d = choose|d: int| mantissa_at(t, d);
    assert(forall|i: int| 0 <= i < d ==> t.take(d)[i] == w[i]);
    assert(forall|i: int| 0 <= i < d ==> is_digit(#[trigger] w[i]));
    if m < w.len() {
        assert(w.skip(m)[0] == w[m]);
        assert(w[m] == 'e' || w[m] == 'E');
        assert(!is_digit(w[m]));
    }
    if d == m {
        if a < m {
            assert(is_digit(w[a]));
        }
        if m < a {
            assert(is_digit(w[m]));
        }
    } else {
        assert(w[d] == '.');
        if a < d {
            assert(is_digit(w[a]));
        }
        if d < a {
            assert(is_digit(w[d]));
        }
        assert forall|i: int| d + 1 <= i < m implies is_digit(#[trigger] w[i]) by {
            assert(is_digit(t.skip(d + 1)[i - d - 1]));
        }
        if b < m {
            assert(is_digit(w[b]));
        }
        if m < b {
            assert(is_digit(w[m]));
        }
    }
}

/// Whether the characters from `lo` on form a number.
fn is_number(v: &Vec<char>, lo: usize) -> (r: bool)
    requires
        lo <= v.len(),
    ensures
        r == number(v@.skip(lo as int)),
{
    let ghost w = v@.skip(lo as int);
    let n = v.len();
    let a = digits_end(v, lo);
    let pointed = a < n && v[a] == '.';
    let b = if pointed {
        digits_end(v, a + 1)
    } else {
        a
    };
    let ghost wa: int = a - lo;
    let ghost wb: int = b - lo;
    proof {
        assert(forall|i: int| 0 <= i < w.len() ==> #[trigger] w[i] == v@[lo + i]);
        assert forall|i: int| 0 <= i < wa implies is_digit(#[trigger] w[i]) by {
            assert(is_digit(v@[lo + i]));
        }
        assert forall|i: int| wa + 1 <= i < wb implies is_digit(#[trigger] w[i]) by {
            assert(is_digit(v@[lo + i]));
        }
        if a < n {
            assert(w[wa] == v@[a as int]);
        }
        if b < n {
            assert(w[wb] == v@[b as int]);
        }
    }
    let digits = if pointed {
        (a - lo) + (b - a - 1)
    } else {
        a - lo
    };
    if digits == 0 {
        proof {
            if number(w) {
                let m = choose|m: int| number_at(w, m);
                lemma_mantissa_end(w, m, wa, wb);
                if pointed {
                    assert(w.take(m).len() == 1);
                }
            }
        }
        return false;
    }
    proof {
        let t = w.take(wb);
        assert(forall|i: int| 0 <= i < wa ==> t.take(wa)[i] == w[i]);
        if pointed {
            assert forall|i: int| 0 <= i < wb - wa - 1 implies is_digit(
                #[trigger] t.skip(wa + 1)[i],
            ) by {
                assert(is_digit(w[wa + 1 + i]));
            }
        }
        assert(mantissa_at(t, wa));
        assert(mantissa(t));
    }
    if b == n {
        assert(number_at(w, wb));
        return true;
    }
    let ghost x = w.skip(wb);
    proof {
        assert(x[0] == v@[b as int]);
        assert(number(w) ==> exponent(x)) by {
            if number(w) {
                let m = choose|m: int| number_at(w, m);
                lemma_mantissa_end(w, m, wa, wb);
            }
        }
        assert(exponent(x) ==> number_at(w, wb));
    }
    if v[b] != 'e' && v[b] != 'E' {
        return false;
    }
    let ghost y = x.skip(1);
    assert(forall|i: int| 0 <= i < y.len() ==> #[trigger] y[i] == v@[b + 1 + i]);
    let c = if b + 1 < n && (v[b + 1] == '+' || v[b + 1] == '-') {
        b + 2
    } else {
        b + 1
    };
    assert(unsigned(y) =~= v@.skip(c as int));
    let e = digits_end(v, c);
    if e == n && c < n {
        assert forall|i: int| 0 <= i < unsigned(y).len() implies is_digit(
            #[trigger] unsigned(y)[i],
        ) by {
            assert(is_digit(v@[c + i]));
        }
        true
    } else {
        proof {
            if e < n {
                assert(unsigned(y)[e - c] == v@[e as int]);
            }
        }
        false
    }
}

/// Whether a text reads as a floating-point value.
pub fn is_float_literal(s: &str) -> (r: bool)
    ensures
        r == float_literal(s@),
{
    let v = chars_of(s);
    let lo: usize = if v.len() > 0 && (v[0] == '+' || v[0] == '-') {
        1
    } else {
        0
    };
    assert(unsigned(s@) =~= v@.skip(lo as int));
    spells(&v, lo, "inf") || spells(&v, lo, "infinity") || spells(&v, lo, "nan") || is_number(
        &v,
        lo,
    )
}

proof fn lemma_digits_value_monotone(s: Seq<char>, k: int)
    requires
        0 <= k <= s.len(),
    ensures
        digits_value(s.take(k)) <= digits_value(s),
    decreases s.len() - k,
{
    if k == s.len() {
        assert(s.take(k) =~= s);
    } else {
        lemma_digits_value_monotone(s, k + 1);
        assert(s.take(k + 1).drop_last() =~= s.take(k));
    }
}

/// Whether a text reads as an unsigned 64-bit integer.
pub fn is_u64_literal(s: &str) -> (r: bool)
    ensures
        r == u64_literal(s@),
{
    let v = chars_of(s);
    let lo: usize = if v.len() > 0 && v[0] == '+' {
        1
    } else {
        0
    };
    let ghost w = behind_plus(s@);
    assert(w =~= v@.skip(lo as int));
    if lo == v.len() {
        return false;
    }
    let mut value: u64 = 0;
    let mut i: usize = lo;
    while i < v.len()
        invariant
            v@ == s@,
            lo <= i <= v.len(),
            w == v@.skip(lo as int),
            w == behind_plus(s@),
            forall|j: int| 0 <= j < i - lo ==> is_digit(#[trigger] w[j]),
            value == digits_value(w.take(i - lo)),
        decreases v.len() - i,
    {
        let ch = v[i];
        assert(w[i - lo] == ch);
        if !('0' <= ch && ch <= '9') {
            return false;
        }
        let d: u64 = (ch as u8 - 48) as u64;
        proof {
            assert(w.take(i - lo + 1).drop_last() =~= w.take(i - lo));
            assert(digits_value(w.take(i - lo + 1)) == value * 10 + d);
            lemma_digits_value_monotone(w, i - lo + 1);
        }
        if value > u64::MAX / 10 {
            return false;
        }
        if value * 10 > u64::MAX - d {
            return false;
        }
        value = value * 10 + d;
        i += 1;
    }
    assert(w.take(w.len() as int) =~= w);
    true
}

/// The numeral of a number is a literal, with a sign or without; as an integer it is
/// one as far as it fits in 64 bits.
pub proof fn law_numerals_are_literals(n: nat)
    ensures
        float_literal(text::decimal(n)),
        float_literal(seq!['-'] + text::decimal(n)),
        float_literal(seq!['+'] + text::decimal(n)),
        u64_literal(text::decimal(n)) <==> n <= u64::MAX,
        u64_literal(seq!['+'] + text::decimal(n)) <==> n <= u64::MAX,
        !u64_literal(seq!['-'] + text::decimal(n)),
{
    let s = text::decimal(n);
    text::law_decimal_reads_back(n);
    lemma_same_value(s);
    let whole = s.len() as int;
    assert(s.take(whole) =~= s);
    assert(mantissa_at(s, whole));
    assert(mantissa(s));
    assert(number_at(s, whole));
    assert(number(s));
    assert(unsigned(s) == s);
    assert((seq!['-'] + s).skip(1) =~= s);
    assert((seq!['+'] + s).skip(1) =~= s);
    let minus = seq!['-'] + s;
    assert(minus[0] == '-');
    assert(behind_plus(minus) == minus);
    assert(!is_digit(minus[0]));
}

proof fn lemma_same_value(s: Seq<char>)
    requires
        all_digits(s),
    ensures
        digits_value(s) == text::number_of(s),
    decreases s.len(),
{
    if s.len() > 0 {
        let less = s.drop_last();
        assert forall|i: int| 0 <= i < less.len() implies is_digit(#[trigger] less[i]) by {
            assert(is_digit(s[i]));
        }
        lemma_same_value(less);
        assert(is_digit(s[s.len() - 1]));
    }
}

/// A word is no literal, unless it begins as one of the named values does.
pub proof fn law_words_are_no_literals(s: Seq<char>)
    requires
        s.len() > 0,
        'a' <= s[0] <= 'z',
        s[0] != 'i',
        s[0] != 'n',
    ensures
        !float_literal(s),
        !u64_literal(s),
{
    assert(unsigned(s) == s);
    if number(s) {
        let m = choose|m: int| number_at(s, m);
        let t = s.take(m);
        let d = choose|d: int| mantissa_at(t, d);
        assert(t.len() > 0);
        if d > 0 {
            assert(is_digit(t.take(d)[0]));
            assert(t[0] == s[0]);
        } else {
            assert(t[0] == '.');
        }
    }
    reveal_strlit("inf");
    reveal_strlit("infinity");
    reveal_strlit("nan");
    assert(lowered(s)[0] == s[0]);
    assert(!is_digit(s[0]));
}

} // verus!
