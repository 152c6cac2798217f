//! Integers as bytes, and bytes as text.
use vstd::prelude::*;

use crate::text;

verus! {

/// The `width` low bytes of a number, the lowest first.
pub open spec fn le_bytes(n: nat, width: nat) -> Seq<u8>
    decreases width,
{
    if width == 0 {
        Seq::empty()
    } else {
        seq![(n % 256) as u8] + le_bytes(n / 256, (width - 1) as nat)
    }
}

/// The number whose bytes are given, the lowest first.
pub open spec fn le_value(bytes: Seq<u8>) -> nat
    decreases bytes.len(),
{
    if bytes.len() == 0 {
        0
    } else {
        bytes[0] as nat + 256 * le_value(bytes.skip(1))
    }
}

/// The number whose bytes are given, the highest first.
pub open spec fn be_value(bytes: Seq<u8>) -> nat {
    le_value(bytes.reverse())
}

/// Two to the power of eight times `width`.
pub open spec fn limit(width: nat) -> nat
    decreases width,
{
    if width == 0 {
        1
    } else {
        256 * limit((width - 1) as nat)
    }
}

/// Reading back the bytes of a number that fits gives the number.
pub proof fn law_bytes_read_back(n: nat, width: nat)
    requires
        n < limit(width),
    ensures
        le_bytes(n, width).len() == width,
        le_value(le_bytes(n, width)) == n,
    decreases width,
{
    if width > 0 {
        assert(n / 256 < limit((width - 1) as nat));
        law_bytes_read_back(n / 256, (width - 1) as nat);
        let s = le_bytes(n, width);
        assert(s.skip(1) =~= le_bytes(n / 256, (width - 1) as nat));
    }
}

/// Append the `width` low bytes of a number, the lowest first.
pub fn push_le(out: &mut Vec<u8>, n: u64, width: u32)
    ensures
        final(out)@ == old(out)@ + le_bytes(n as nat, width as nat),
    decreases width,
{
    if width > 0 {
        let ghost pre = out@;
        out.push((n % 256) as u8);
        push_le(out, n / 256, width - 1);
        assert(out@ =~= pre + le_bytes(n as nat, width as nat));
    } else {
        assert(out@ + Seq::<u8>::empty() =~= out@);
    }
}

/// The four bytes at an offset.
pub open spec fn word_at(bytes: Seq<u8>, off: int) -> Seq<u8> {
    bytes.subrange(off, off + 4)
}

/// The 32-bit number at an offset, the lowest byte first.
pub open spec fn le_word(bytes: Seq<u8>, off: int) -> Option<nat> {
    if 0 <= off && off + 4 <= bytes.len() {
        Some(le_value(word_at(bytes, off)))
    } else {
        None
    }
}

/// The 32-bit number at an offset, the highest byte first.
pub open spec fn be_word(bytes: Seq<u8>, off: int) -> Option<nat> {
    if 0 <= off && off + 4 <= bytes.len() {
        Some(be_value(word_at(bytes, off)))
    } else {
        None
    }
}

/// A word by its bytes.
pub proof fn lemma_word(s: Seq<u8>)
    requires
        s.len() == 4,
    ensures
        le_value(s) == s[0] as nat + 256 * (s[1] as nat) + 65536 * (s[2] as nat) + 16777216 * (
        s[3] as nat),
{
    reveal_with_fuel(le_value, 5);
    let a = s.skip(1);
    let b = a.skip(1);
    let c = b.skip(1);
    let d = c.skip(1);
    assert(a[0] == s[1] && b[0] == s[2] && c[0] == s[3] && d.len() == 0);
    assert(le_value(d) == 0);
    assert(le_value(c) == c[0] as nat);
    assert(le_value(b) == b[0] as nat + 256 * le_value(c));
    assert(le_value(a) == a[0] as nat + 256 * le_value(b));
    assert(le_value(s) == s[0] as nat + 256 * le_value(a));
}

/// Whether two optional numbers are the same.
pub open spec fn same_number(r: Option<u32>, n: Option<nat>) -> bool {
    match n {
        Some(v) => r is Some && r->0 == v,
        None => r is None,
    }
}

/// The 32-bit number at an offset, the lowest byte first.
pub fn u32_le(bytes: &Vec<u8>, off: usize) -> (r: Option<u32>)
    ensures
        same_number(r, le_word(bytes@, off as int)),
        r is Some ==> off + 4 <= bytes@.len(),
{
    if bytes.len() < 4 || off > bytes.len() - 4 {
        return None;
    }
    proof {
        lemma_word(word_at(bytes@, off as int));
    }
    Some(
        bytes[off] as u32 + 0x100 * (bytes[off + 1] as u32) + 0x1_0000 * (bytes[off + 2] as u32)
            + 0x100_0000 * (bytes[off + 3] as u32),
    )
}

/// The 32-bit number at an offset, the highest byte first.
pub fn u32_be(bytes: &Vec<u8>, off: usize) -> (r: Option<u32>)
    ensures
        same_number(r, be_word(bytes@, off as int)),
        r is Some ==> off + 4 <= bytes@.len(),
{
    if bytes.len() < 4 || off > bytes.len() - 4 {
        return None;
    }
    proof {
        lemma_word(word_at(bytes@, off as int).reverse());
    }
    Some(
        bytes[off + 3] as u32 + 0x100 * (bytes[off + 2] as u32) + 0x1_0000 * (bytes[off + 1] as u32)
            + 0x100_0000 * (bytes[off] as u32),
    )
}

/// What std's lossy decoding of bytes gives.
pub uninterp spec fn lossy_utf8(bytes: Seq<u8>) -> Seq<char>;

/// The text of some bytes, by `String::from_utf8_lossy`. It is a function of the
/// bytes alone, and bytes that are valid UTF-8 are decoded as they stand.
/// Nothing is claimed of where the replacement character goes in other bytes.
#[verifier::external_body]
pub(crate) fn lossy_string(bytes: &[u8]) -> (r: String)
    ensures
        r@ == lossy_utf8(bytes@),
        vstd::utf8::valid_utf8(bytes@) ==> r@ == vstd::utf8::decode_utf8(bytes@),
{
    String::from_utf8_lossy(bytes).into_owned()
}

/// Whether a character has the Unicode property White_Space.
pub open spec fn is_white_space(c: char) -> bool {
    ||| '\u{9}' <= c <= '\u{d}'
    ||| c == ' '
    ||| c == '\u{85}'
    ||| c == '\u{a0}'
    ||| c == '\u{1680}'
    ||| '\u{2000}' <= c <= '\u{200a}'
    ||| c == '\u{2028}'
    ||| c == '\u{2029}'
    ||| c == '\u{202f}'
    ||| c == '\u{205f}'
    ||| c == '\u{3000}'
}

/// `char::is_whitespace` tells whether a character has the Unicode property
/// White_Space.
pub assume_specification[ char::is_whitespace ](c: char) -> (r: bool)
    ensures
        r == is_white_space(c),
;

/// Where a text first occurs in another, not before a position.
pub open spec fn found_at(hay: Seq<char>, needle: Seq<char>, i: int) -> bool {
    0 <= i && i + needle.len() <= hay.len() && hay.subrange(i, i + needle.len()) == needle
}

/// The first place from `from` on where a text occurs in another.
pub open spec fn find(hay: Seq<char>, needle: Seq<char>, from: int) -> Option<int>
    decreases hay.len() + 1 - from,
{
    if from > hay.len() {
        None
    } else if found_at(hay, needle, from) {
        Some(from)
    } else {
        find(hay, needle, from + 1)
    }
}

fn is_at(hay: &Vec<char>, needle: &Vec<char>, i: usize) -> (r: bool)
    requires
        i + needle@.len() <= hay@.len(),
    ensures
        r == found_at(hay@, needle@, i as int),
{
    let total = hay.len();
    let mut k: usize = 0;
    while k < needle.len()
        invariant
            total == hay@.len(),
            i + needle@.len() <= total,
            k <= needle@.len(),
            forall|j: int| 0 <= j < k ==> hay@[i + j] == needle@[j],
        decreases needle.len() - k,
    {
        if hay[i + k] != needle[k] {
            assert(hay@.subrange(i as int, i + needle@.len())[k as int] != needle@[k as int]);
            return false;
        }
        k += 1;
    }
    assert(hay@.subrange(i as int, i + needle@.len()) =~= needle@);
    true
}

proof fn lemma_too_late(hay: Seq<char>, needle: Seq<char>, from: int)
    requires
        0 <= from,
        from + needle.len() > hay.len(),
    ensures
        find(hay, needle, from) is None,
    decreases hay.len() + 1 - from,
{
    if from <= hay.len() {
        lemma_too_late(hay, needle, from + 1);
    }
}

/// Where the first place of a text in another lies, and where it does not.
pub proof fn lemma_find(hay: Seq<char>, needle: Seq<char>, from: int)
    requires
        0 <= from,
    ensures
        match find(hay, needle, from) {
            Some(at) => from <= at && found_at(hay, needle, at) && forall|i: int|
                from <= i < at ==> !found_at(hay, needle, i),
            None => forall|i: int| from <= i ==> !found_at(hay, needle, i),
        },
    decreases hay.len() + 1 - from,
{
    if from <= hay.len() && !found_at(hay, needle, from) {
        lemma_find(hay, needle, from + 1);
    }
}

/// A place before which a text does not occur is the first one.
pub proof fn lemma_first(hay: Seq<char>, needle: Seq<char>, from: int, at: int)
    requires
        0 <= from <= at,
        found_at(hay, needle, at),
        forall|i: int| from <= i < at ==> !found_at(hay, needle, i),
    ensures
        find(hay, needle, from) == Some(at),
{
    lemma_find(hay, needle, from);
}

/// Whether a text, laid at `i` over another, has from its place `k` on a
/// character other than the one under it.
pub open spec fn misses(text: Seq<char>, over: Seq<char>, i: int, k: int) -> bool
    decreases over.len() - k,
{
    k < over.len() && i + k < text.len() && (text[i + k] != over[k] || misses(text, over, i, k + 1))
}

/// Whether a text misses another at each place from `i` up to `end`, whatever
/// stands behind that other.
pub open spec fn clear(text: Seq<char>, over: Seq<char>, i: int, end: int) -> bool
    decreases end - i,
{
    i >= end || (misses(text, over, i, 0) && clear(text, over, i + 1, end))
}

/// Whether a text, laid at `i` over another, is from its place `k` on what lies
/// under it.
pub open spec fn meets(text: Seq<char>, over: Seq<char>, i: int, k: int) -> bool
    decreases over.len() - k,
{
    k >= over.len() || (i + k < text.len() && text[i + k] == over[k] && meets(text, over, i, k + 1))
}

proof fn lemma_misses(text: Seq<char>, over: Seq<char>, i: int, k: int) -> (j: int)
    requires
        misses(text, over, i, k),
    ensures
        k <= j < over.len(),
        i + j < text.len(),
        text[i + j] != over[j],
    decreases over.len() - k,
{
    if text[i + k] != over[k] {
        k
    } else {
        lemma_misses(text, over, i, k + 1)
    }
}

proof fn lemma_clear_at(text: Seq<char>, over: Seq<char>, i: int, end: int, at: int)
    requires
        clear(text, over, i, end),
        i <= at < end,
    ensures
        misses(text, over, at, 0),
    decreases end - i,
{
    if i < at {
        lemma_clear_at(text, over, i + 1, end, at);
    }
}

proof fn lemma_meets_from(text: Seq<char>, over: Seq<char>, i: int, k: int)
    requires
        0 <= k,
        meets(text, over, i, k),
    ensures
        k < over.len() ==> i + over.len() <= text.len(),
        forall|j: int| k <= j < over.len() ==> text[i + j] == #[trigger] over[j],
    decreases over.len() - k,
{
    if k < over.len() {
        lemma_meets_from(text, over, i, k + 1);
    }
}

/// A text that meets another at a place is found there.
pub proof fn lemma_meets(text: Seq<char>, over: Seq<char>, i: int)
    requires
        0 <= i,
        0 < over.len(),
        meets(text, over, i, 0),
    ensures
        found_at(text, over, i),
{
    lemma_meets_from(text, over, i, 0);
    assert(text.subrange(i, i + over.len()) =~= over);
}

/// A text found in a piece is found in the whole.
pub proof fn lemma_found_through(
    hay: Seq<char>,
    piece: Seq<char>,
    at: int,
    needle: Seq<char>,
    i: int,
)
    requires
        found_at(hay, piece, at),
        found_at(piece, needle, i),
    ensures
        found_at(hay, needle, at + i),
{
    let inner = piece.subrange(i, i + needle.len());
    assert(hay.subrange(at + i, at + i + needle.len()) =~= inner) by {
        assert forall|k: int| 0 <= k < needle.len() implies hay[at + i + k] == #[trigger] inner[k] by {
            assert(hay.subrange(at, at + piece.len())[i + k] == hay[at + i + k]);
        }
    }
}

/// A text is not found in another over a piece of it that it misses.
pub proof fn lemma_clear(hay: Seq<char>, piece: Seq<char>, at: int, needle: Seq<char>, i: int, end: int)
    requires
        found_at(hay, piece, at),
        0 <= i,
        clear(piece, needle, i, end),
    ensures
        forall|k: int| at + i <= k < at + end ==> !found_at(hay, needle, k),
{
    assert forall|k: int| at + i <= k < at + end implies !found_at(hay, needle, k) by {
        lemma_clear_at(piece, needle, i, end, k - at);
        let j = lemma_misses(piece, needle, k - at, 0);
        assert(hay.subrange(at, at + piece.len())[k - at + j] == hay[k + j]);
        if found_at(hay, needle, k) {
            assert(hay.subrange(k, k + needle.len())[j] == hay[k + j]);
        }
    }
}

/// A text that misses each of two pieces misses them joined.
pub proof fn lemma_clear_joined(a: Seq<char>, b: Seq<char>, needle: Seq<char>)
    requires
        clear(a, needle, 0, a.len() as int),
        clear(b, needle, 0, b.len() as int),
    ensures
        clear(a + b, needle, 0, (a + b).len() as int),
{
    lemma_clear_kept(a, b, needle, 0);
}

proof fn lemma_misses_kept(a: Seq<char>, b: Seq<char>, needle: Seq<char>, i: int, k: int)
    requires
        0 <= i,
        0 <= k,
    ensures
        misses(a, needle, i, k) ==> misses(a + b, needle, i, k),
        misses(b, needle, i, k) ==> misses(a + b, needle, a.len() + i, k),
    decreases needle.len() - k,
{
    if k < needle.len() {
        lemma_misses_kept(a, b, needle, i, k + 1);
    }
}

proof fn lemma_clear_kept(a: Seq<char>, b: Seq<char>, needle: Seq<char>, i: int)
    requires
        0 <= i <= a.len() + b.len(),
        i <= a.len() ==> clear(a, needle, i, a.len() as int) && clear(b, needle, 0, b.len() as int),
        i > a.len() ==> clear(b, needle, i - a.len(), b.len() as int),
    ensures
        clear(a + b, needle, i, (a + b).len() as int),
    decreases a.len() + b.len() - i,
{
    if i < a.len() {
        lemma_misses_kept(a, b, needle, i, 0);
        lemma_clear_kept(a, b, needle, i + 1);
    } else if i < a.len() + b.len() {
        lemma_misses_kept(a, b, needle, i - a.len(), 0);
        lemma_clear_kept(a, b, needle, i + 1);
    }
}

/// A text found at a place of a piece lies within it, if what stands behind the
/// piece misses the text at each place but its first.
pub proof fn lemma_within(
    hay: Seq<char>,
    piece: Seq<char>,
    next: Seq<char>,
    at: int,
    needle: Seq<char>,
    i: int,
)
    requires
        found_at(hay, piece, at),
        found_at(hay, next, at + piece.len()),
        clear(needle, next, 1, needle.len() as int),
        at <= i < at + piece.len(),
        found_at(hay, needle, i),
    ensures
        found_at(piece, needle, i - at),
{
    let m = at + piece.len() - i;
    if m < needle.len() {
        lemma_clear_at(needle, next, 1, needle.len() as int, m);
        let j = lemma_misses(needle, next, m, 0);
        assert(hay.subrange(i, i + needle.len())[m + j] == hay[i + m + j]);
        assert(hay.subrange(at + piece.len(), at + piece.len() + next.len())[j] == hay[i + m + j]);
    }
    assert(piece.subrange(i - at, i - at + needle.len()) =~= needle) by {
        assert forall|k: int| 0 <= k < needle.len() implies #[trigger] needle[k] == piece[i - at + k] by {
            assert(hay.subrange(i, i + needle.len())[k] == hay[i + k]);
            assert(hay.subrange(at, at + piece.len())[i - at + k] == hay[i + k]);
        }
    }
}

/// The first place from `from` on where a text occurs in another.
pub fn find_chars(hay: &Vec<char>, needle: &Vec<char>, from: usize) -> (r: Option<usize>)
    ensures
        match r {
            Some(i) => find(hay@, needle@, from as int) == Some(i as int) && found_at(
                hay@,
                needle@,
                i as int,
            ) && from <= i,
            None => find(hay@, needle@, from as int) is None,
        },
{
    if needle.len() > hay.len() {
        proof {
            lemma_too_late(hay@, needle@, from as int);
        }
        return None;
    }
    let last = hay.len() - needle.len();
    let mut i = from;
    while i <= last
        invariant
            last + needle@.len() == hay@.len(),
            from <= i,
            find(hay@, needle@, from as int) == find(hay@, needle@, i as int),
        decreases hay@.len() + 1 - i,
    {
        if is_at(hay, needle, i) {
            return Some(i);
        }
        if i == last {
            proof {
                lemma_too_late(hay@, needle@, i + 1);
            }
            return None;
        }
        i += 1;
    }
    proof {
        lemma_too_late(hay@, needle@, i as int);
    }
    None
}

/// Whether a text occurs in another.
pub fn contains(hay: &str, needle: &str) -> (r: bool)
    ensures
        r == (find(hay@, needle@, 0) is Some),
{
    find_chars(&text::chars_of(hay), &text::chars_of(needle), 0).is_some()
}

/// The bytes of a 32-bit and of a 64-bit number are four and eight, and give it back.
pub proof fn law_numbers_read_back(n: u32, m: u64)
    ensures
        le_bytes(n as nat, 4).len() == 4,
        le_value(le_bytes(n as nat, 4)) == n,
        le_bytes(m as nat, 8).len() == 8,
        le_value(le_bytes(m as nat, 8)) == m,
{
    reveal_with_fuel(limit, 9);
    law_bytes_read_back(n as nat, 4);
    law_bytes_read_back(m as nat, 8);
}

} // verus!
