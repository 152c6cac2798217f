//! Text building: decimal and hexadecimal numerals, JSON fragments, joins.
use vstd::prelude::*;

verus! {

/// `String::push` appends one character.
pub assume_specification[ String::push ](s: &mut String, ch: char)
    ensures
        final(s)@ == old(s)@.push(ch),
;

/// The characters of a vector of strings, one sequence per string.
pub open spec fn texts(parts: Seq<String>) -> Seq<Seq<char>> {
    parts.map_values(|part: String| part@)
}

/// One more text in place keeps a list of texts a prefix of the whole.
pub proof fn lemma_grown(parts: Seq<String>, all: Seq<Seq<char>>, i: int)
    requires
        0 <= i < all.len(),
        parts.len() > 0,
        texts(parts.drop_last()) == all.take(i),
        parts.last()@ == all[i],
    ensures
        texts(parts) == all.take(i + 1),
{
    assert(texts(parts.drop_last()).len() == parts.len() - 1);
    assert forall|j: int| 0 <= j < i + 1 implies texts(parts)[j] == all.take(i + 1)[j] by {
        if j < i {
            assert(texts(parts.drop_last())[j] == all.take(i)[j]);
        }
    }
    assert(texts(parts) =~= all.take(i + 1));
}

/// The character of a decimal digit.
pub open spec fn digit_char(d: nat) -> char {
    (48 + d) as char
}

/// The decimal numeral of a natural number, without leading zeros.
pub open spec fn decimal(n: nat) -> Seq<char>
    decreases n,
{
    if n < 10 {
        seq![digit_char(n)]
    } else {
        decimal(n / 10).push(digit_char(n % 10))
    }
}

/// The decimal numeral of an integer, with a leading minus below zero.
pub open spec fn signed_decimal(n: int) -> Seq<char> {
    if n < 0 {
        seq!['-'] + decimal((-n) as nat)
    } else {
        decimal(n as nat)
    }
}

/// The lower-case character of a hexadecimal digit.
pub open spec fn hex_char(d: nat) -> char {
    if d < 10 {
        (48 + d) as char
    } else {
        (87 + d) as char
    }
}

/// The lower-case hexadecimal numeral of a natural number.
pub open spec fn hex(n: nat) -> Seq<char>
    decreases n,
{
    if n < 16 {
        seq![hex_char(n)]
    } else {
        hex(n / 16).push(hex_char(n % 16))
    }
}

/// The upper-case character of a hexadecimal digit.
pub open spec fn upper_hex_char(d: nat) -> char {
    if d < 10 {
        (48 + d) as char
    } else {
        (55 + d) as char
    }
}

/// The upper-case hexadecimal numeral of a natural number.
pub open spec fn hex_upper(n: nat) -> Seq<char>
    decreases n,
{
    if n < 16 {
        seq![upper_hex_char(n)]
    } else {
        hex_upper(n / 16).push(upper_hex_char(n % 16))
    }
}

/// The lower-case hexadecimal numeral with exactly `width` digits.
pub open spec fn hex_padded(n: nat, width: nat) -> Seq<char>
    decreases width,
{
    if width == 0 {
        Seq::empty()
    } else {
        hex_padded(n / 16, (width - 1) as nat).push(hex_char(n % 16))
    }
}

/// `parts` with `sep` between neighbours.
pub open spec fn joined(parts: Seq<Seq<char>>, sep: Seq<char>) -> Seq<char>
    decreases parts.len(),
{
    if parts.len() == 0 {
        Seq::empty()
    } else if parts.len() == 1 {
        parts[0]
    } else {
        joined(parts.drop_last(), sep) + sep + parts.last()
    }
}

/// Append the decimal numeral of `n` to `out`.
pub fn push_decimal(out: &mut String, n: u64)
    ensures
        final(out)@ == old(out)@ + decimal(n as nat),
    decreases n,
{
    if n < 10 {
        out.push((48u8 + n as u8) as char);
    } else {
        push_decimal(out, n / 10);
        out.push((48u8 + (n % 10) as u8) as char);
    }
}

/// Append the decimal numeral of a signed number to `out`.
pub fn push_signed(out: &mut String, n: i32)
    ensures
        final(out)@ == old(out)@ + signed_decimal(n as int),
{
    if n < 0 {
        out.push('-');
        let magnitude: u64 = (-(n as i64)) as u64;
        push_decimal(out, magnitude);
    } else {
        push_decimal(out, n as u64);
    }
}

/// Append the shortest hexadecimal numeral of `n` to `out`.
pub fn push_hex(out: &mut String, n: u32)
    ensures
        final(out)@ == old(out)@ + hex(n as nat),
    decreases n,
{
    let d: u8 = (n % 16) as u8;
    if n >= 16 {
        push_hex(out, n / 16);
    }
    if d < 10 {
        out.push((48u8 + d) as char);
    } else {
        out.push((87u8 + d) as char);
    }
}

/// Append the shortest upper-case hexadecimal numeral of `n` to `out`.
pub fn push_hex_upper(out: &mut String, n: u32)
    ensures
        final(out)@ == old(out)@ + hex_upper(n as nat),
    decreases n,
{
    let d: u8 = (n % 16) as u8;
    if n >= 16 {
        push_hex_upper(out, n / 16);
    }
    if d < 10 {
        out.push((48u8 + d) as char);
    } else {
        out.push((55u8 + d) as char);
    }
}

/// Append the last `width` hexadecimal digits of `n` to `out`.
pub fn push_hex_padded(out: &mut String, n: u32, width: u32)
    ensures
        final(out)@ == old(out)@ + hex_padded(n as nat, width as nat),
    decreases width,
{
    if width > 0 {
        push_hex_padded(out, n / 16, width - 1);
        let d: u8 = (n % 16) as u8;
        if d < 10 {
            out.push((48u8 + d) as char);
        } else {
            out.push((87u8 + d) as char);
        }
    }
}

/// The decimal numeral of `n`, with a sign if it is negative.
pub fn signed_string(n: i32) -> (r: String)
    ensures
        r@ == signed_decimal(n as int),
{
    let mut out = String::new();
    push_signed(&mut out, n);
    assert(Seq::<char>::empty() + signed_decimal(n as int) =~= signed_decimal(n as int));
    out
}

/// The decimal numeral of `n`.
pub fn decimal_string(n: u64) -> (r: String)
    ensures
        r@ == decimal(n as nat),
{
    let mut out = String::new();
    push_decimal(&mut out, n);
    out
}

/// Whether two texts hold the same characters.
pub fn same(a: &str, b: &str) -> (r: bool)
    ensures
        r == (a@ == b@),
{
    a.to_owned() == b.to_owned()
}

/// The characters of `s` as a vector.
pub fn chars_of(s: &str) -> (r: Vec<char>)
    ensures
        r@ == s@,
{
    let mut out: Vec<char> = Vec::new();
    for ch in it: s.chars()
        invariant
            out@.len() == it.index(),
            it.seq() == s@,
            forall|i: int| 0 <= i < it.index() ==> out@[i] == s@[i],
    {
        out.push(ch);
    }
    assert(out@ =~= s@);
    out
}

/// The Unicode scalar value of a character.
pub fn code_point(ch: char) -> (r: u32)
    ensures
        r as nat == ch as nat,
{
    ch as u32
}

/// The JSON literal of a truth value.
pub open spec fn json_bool_text(value: bool) -> Seq<char> {
    if value { "true"@ } else { "false"@ }
}

/// `true` or `false`.
pub fn json_bool(value: bool) -> (r: &'static str)
    ensures
        r@ == json_bool_text(value),
{
    if value { "true" } else { "false" }
}

/// The JSON literal of an optional truth value: `null` when unset.
pub open spec fn optional_bool_text(value: Option<bool>) -> Seq<char> {
    match value {
        None => "null"@,
        Some(b) => json_bool_text(b),
    }
}

/// `null`, `true` or `false`.
pub fn optional_bool(value: Option<bool>) -> (r: &'static str)
    ensures
        r@ == optional_bool_text(value),
{
    match value {
        None => "null",
        Some(true) => "true",
        Some(false) => "false",
    }
}

/// How one character stands inside a JSON string literal.
pub open spec fn json_escaped_char(ch: char) -> Seq<char> {
    if ch == '"' {
        seq!['\\', '"']
    } else if ch == '\\' {
        seq!['\\', '\\']
    } else if ch == '\n' {
        seq!['\\', 'n']
    } else if ch == '\r' {
        seq!['\\', 'r']
    } else if ch == '\t' {
        seq!['\\', 't']
    } else if (ch as nat) < 32 {
        seq!['\\', 'u'] + hex_padded(ch as nat, 4)
    } else {
        seq![ch]
    }
}

/// A text as it stands inside a JSON string literal.
pub open spec fn json_escaped(value: Seq<char>) -> Seq<char>
    decreases value.len(),
{
    if value.len() == 0 {
        Seq::empty()
    } else {
        json_escaped(value.drop_last()) + json_escaped_char(value.last())
    }
}

/// Escape a text for a JSON string literal: quotes, backslashes and control
/// characters.
pub fn json_escape(value: &str) -> (r: String)
    ensures
        r@ == json_escaped(value@),
{
    let chars = chars_of(value);
    let mut out = String::new();
    let mut i: usize = 0;
    while i < chars.len()
        invariant
            chars@ == value@,
            i <= chars.len(),
            out@ == json_escaped(value@.take(i as int)),
        decreases chars.len() - i,
    {
        let ch = chars[i];
        proof {
            assert(value@.take(i + 1).drop_last() =~= value@.take(i as int));
        }
        if ch == '"' {
            out.push('\\');
            out.push('"');
        } else if ch == '\\' {
            out.push('\\');
            out.push('\\');
        } else if ch == '\n' {
            out.push('\\');
            out.push('n');
        } else if ch == '\r' {
            out.push('\\');
            out.push('r');
        } else if ch == '\t' {
            out.push('\\');
            out.push('t');
        } else if code_point(ch) < 32 {
            out.push('\\');
            out.push('u');
            push_hex_padded(&mut out, code_point(ch), 4);
        } else {
            out.push(ch);
        }
        assert(out@ =~= json_escaped(value@.take(i as int)) + json_escaped_char(ch));
        i += 1;
    }
    assert(value@.take(value@.len() as int) =~= value@);
    out
}

/// The value of a hexadecimal digit.
pub open spec fn hex_value(c: char) -> Option<nat> {
    if '0' <= c <= '9' {
        Some((c as nat - 48) as nat)
    } else if 'a' <= c <= 'f' {
        Some((c as nat - 87) as nat)
    } else if 'A' <= c <= 'F' {
        Some((c as nat - 55) as nat)
    } else {
        None
    }
}

/// The number that the first four of some characters stand for in hexadecimal.
pub open spec fn hex_word(text: Seq<char>) -> Option<nat> {
    if text.len() < 4 {
        None
    } else {
        match (hex_value(text[0]), hex_value(text[1]), hex_value(text[2]), hex_value(text[3])) {
            (Some(a), Some(b), Some(c), Some(d)) => Some(a * 4096 + b * 256 + c * 16 + d),
            _ => None,
        }
    }
}

/// The first character that the inside of a JSON string literal stands for, and
/// how many characters it is written with. There is none at a quote or a control
/// character that is not escaped, nor at half of a surrogate pair.
pub open spec fn json_char(text: Seq<char>) -> Option<(char, int)> {
    if text.len() == 0 {
        None
    } else if text[0] == '"' || (text[0] as nat) < 32 {
        None
    } else if text[0] != '\\' {
        Some((text[0], 1))
    } else if text.len() == 1 {
        None
    } else if text[1] == '"' || text[1] == '\\' || text[1] == '/' {
        Some((text[1], 2))
    } else if text[1] == 'b' {
        Some(('\u{8}', 2))
    } else if text[1] == 'f' {
        Some(('\u{c}', 2))
    } else if text[1] == 'n' {
        Some(('\n', 2))
    } else if text[1] == 'r' {
        Some(('\r', 2))
    } else if text[1] == 't' {
        Some(('\t', 2))
    } else if text[1] == 'u' {
        match hex_word(text.skip(2)) {
            Some(n) => if 0xd800 <= n < 0xe000 {
                None
            } else {
                Some((n as char, 6))
            },
            None => None,
        }
    } else {
        None
    }
}

/// What the inside of a JSON string literal stands for.
pub open spec fn json_decoded(text: Seq<char>) -> Option<Seq<char>>
    decreases text.len(),
{
    if text.len() == 0 {
        Some(Seq::empty())
    } else {
        match json_char(text) {
            Some((c, n)) => match json_decoded(text.skip(n)) {
                Some(rest) => Some(seq![c] + rest),
                None => None,
            },
            None => None,
        }
    }
}

/// Escaping two texts joined is joining them escaped.
pub proof fn law_json_escape_distributes(a: Seq<char>, b: Seq<char>)
    ensures
        json_escaped(a + b) == json_escaped(a) + json_escaped(b),
    decreases b.len(),
{
    if b.len() == 0 {
        assert(a + b =~= a);
        assert(json_escaped(a) + json_escaped(b) =~= json_escaped(a));
    } else {
        law_json_escape_distributes(a, b.drop_last());
        assert((a + b).drop_last() =~= a + b.drop_last());
        assert((a + b).last() == b.last());
        assert(json_escaped(a + b) =~= json_escaped(a) + json_escaped(b));
    }
}

proof fn lemma_escaped_char_decodes(ch: char, rest: Seq<char>)
    ensures
        json_char(json_escaped_char(ch) + rest) == Some(
            (ch, json_escaped_char(ch).len() as int),
        ),
{
    let e = json_escaped_char(ch);
    let t = e + rest;
    if (ch as nat) < 32 && ch != '\n' && ch != '\r' && ch != '\t' {
        let n = ch as nat;
        reveal_with_fuel(hex_padded, 5);
        assert(e =~= seq!['\\', 'u', '0', '0', hex_char(n / 16), hex_char(n % 16)]);
        let w = t.skip(2);
        assert(w[0] == '0' && w[1] == '0' && w[2] == hex_char(n / 16) && w[3] == hex_char(n % 16));
        assert(hex_word(w) == Some(n));
    }
}

/// A text can be read back from its escaped form.
pub proof fn law_json_escape_decodes(value: Seq<char>)
    ensures
        json_decoded(json_escaped(value)) == Some(value),
    decreases value.len(),
{
    if value.len() > 0 {
        let first = value.first();
        let rest = value.drop_first();
        assert(value =~= seq![first] + rest);
        law_json_escape_distributes(seq![first], rest);
        assert(seq![first].drop_last() =~= Seq::<char>::empty());
        reveal_with_fuel(json_escaped, 2);
        assert(json_escaped(seq![first]) =~= json_escaped_char(first));
        lemma_escaped_char_decodes(first, json_escaped(rest));
        law_json_escape_decodes(rest);
        let t = json_escaped(value);
        let n = json_escaped_char(first).len() as int;
        assert(t.skip(n) =~= json_escaped(rest));
    }
}

/// Append `parts` with `sep` between neighbours.
pub fn push_joined(out: &mut String, parts: &Vec<String>, sep: &str)
    ensures
        final(out)@ == old(out)@ + joined(texts(parts@), sep@),
{
    let ghost base = out@;
    let mut i: usize = 0;
    while i < parts.len()
        invariant
            i <= parts.len(),
            out@ == base + joined(texts(parts@).take(i as int), sep@),
        decreases parts.len() - i,
    {
        let ghost before = texts(parts@).take(i as int);
        let ghost after = texts(parts@).take(i + 1);
        proof {
            assert(after.drop_last() =~= before);
            assert(after.last() == parts@[i as int]@);
        }
        if i > 0 {
            out.append(sep);
        }
        out.append(parts[i].as_str());
        assert(out@ =~= base + joined(after, sep@));
        i += 1;
    }
    assert(texts(parts@).take(parts@.len() as int) =~= texts(parts@));
}

/// `parts` joined with `sep`.
pub fn join(parts: &Vec<String>, sep: &str) -> (r: String)
    ensures
        r@ == joined(texts(parts@), sep@),
{
    let mut out = String::new();
    push_joined(&mut out, parts, sep);
    assert(Seq::<char>::empty() + joined(texts(parts@), sep@) =~= joined(texts(parts@), sep@));
    out
}

/// The decimal numerals of 32-bit identifiers.
pub open spec fn id_numerals(ids: Seq<u32>) -> Seq<Seq<char>> {
    ids.map_values(|id: u32| decimal(id as nat))
}

/// The decimal numerals of 64-bit identifiers.
pub open spec fn wide_id_numerals(ids: Seq<u64>) -> Seq<Seq<char>> {
    ids.map_values(|id: u64| decimal(id as nat))
}

/// Identifiers in decimal, separated by a comma and a blank.
pub fn join_ids(windows: &Vec<u32>) -> (r: String)
    ensures
        r@ == joined(id_numerals(windows@), ", "@),
{
    let mut parts: Vec<String> = Vec::new();
    let mut i: usize = 0;
    while i < windows.len()
        invariant
            i <= windows.len(),
            parts@.len() == i,
            forall|j: int| 0 <= j < i ==> (#[trigger] parts@[j])@ == decimal(windows@[j] as nat),
        decreases windows.len() - i,
    {
        parts.push(decimal_string(windows[i] as u64));
        i += 1;
    }
    assert(texts(parts@) =~= id_numerals(windows@));
    join(&parts, ", ")
}

/// Identifiers in decimal, separated by a comma and a blank.
pub fn join_u64s(values: &Vec<u64>) -> (r: String)
    ensures
        r@ == joined(wide_id_numerals(values@), ", "@),
{
    let mut parts: Vec<String> = Vec::new();
    let mut i: usize = 0;
    while i < values.len()
        invariant
            i <= values.len(),
            parts@.len() == i,
            forall|j: int| 0 <= j < i ==> (#[trigger] parts@[j])@ == decimal(values@[j] as nat),
        decreases values.len() - i,
    {
        parts.push(decimal_string(values[i]));
        i += 1;
    }
    assert(texts(parts@) =~= wide_id_numerals(values@));
    join(&parts, ", ")
}

/// The optional text, or the empty text.
pub open spec fn text_or_empty(value: Option<String>) -> Seq<char> {
    match value {
        Some(s) => s@,
        None => Seq::empty(),
    }
}

/// The optional text, or the empty text.
pub fn or_empty(value: &Option<String>) -> (r: &str)
    ensures
        r@ == text_or_empty(*value),
{
    match value {
        Some(s) => s.as_str(),
        None => {
            proof {
                reveal_strlit("");
                assert(""@ =~= Seq::<char>::empty());
            }
            ""
        },
    }
}

/// Whether a listed object has a member with a key and a value: the key in quotes, a
/// colon and the value, then a comma or the end of the line.
pub open spec fn tells(object: Seq<char>, key: Seq<char>, value: Seq<char>) -> bool {
    exists|before: Seq<char>, after: Seq<char>|
        #[trigger] told_between(object, key, value, before, after)
}

/// Whether a member stands between two parts of a listed object.
pub open spec fn told_between(
    object: Seq<char>,
    key: Seq<char>,
    value: Seq<char>,
    before: Seq<char>,
    after: Seq<char>,
) -> bool {
    &&& object == before + "\t\""@ + key + "\":"@ + value + after
    &&& after.len() > 0
    &&& after[0] == ',' || after[0] == '\n'
}

/// Joining no part gives nothing, one part that part, and one more part puts the
/// separator and that part behind the others.
pub proof fn law_joined_one_more(parts: Seq<Seq<char>>, part: Seq<char>, sep: Seq<char>)
    ensures
        joined(Seq::empty(), sep) == Seq::<char>::empty(),
        joined(seq![part], sep) == part,
        parts.len() > 0 ==> joined(parts.push(part), sep) == joined(parts, sep) + sep + part,
{
    assert(parts.push(part).drop_last() =~= parts);
}

/// The number that decimal digits stand for.
pub open spec fn number_of(digits: Seq<char>) -> nat
    decreases digits.len(),
{
    if digits.len() == 0 {
        0
    } else {
        (number_of(digits.drop_last()) * 10 + (digits.last() as nat - 48)) as nat
    }
}

/// A decimal numeral stands for its number, has digits alone, and no leading zero
/// but in the numeral of zero.
pub proof fn law_decimal_reads_back(n: nat)
    ensures
        number_of(decimal(n)) == n,
        decimal(n).len() > 0,
        forall|i: int| 0 <= i < decimal(n).len() ==> '0' <= #[trigger] decimal(n)[i] <= '9',
        n > 0 ==> decimal(n)[0] != '0',
    decreases n,
{
    reveal_with_fuel(number_of, 2);
    if n < 10 {
        assert(decimal(n) == seq![digit_char(n)]);
        assert(decimal(n).drop_last() =~= Seq::<char>::empty());
        assert(decimal(n).last() == digit_char(n));
    } else {
        law_decimal_reads_back(n / 10);
        let rest = decimal(n / 10);
        assert(decimal(n) == rest.push(digit_char(n % 10)));
        assert(decimal(n).drop_last() =~= rest);
        assert(decimal(n).last() == digit_char(n % 10));
        assert(decimal(n)[0] == rest[0]);
    }
}

/// A signed numeral has a minus below zero and none otherwise, and the digits of the
/// number's size.
pub proof fn law_signed_decimal_reads_back(n: int)
    ensures
        n >= 0 ==> number_of(signed_decimal(n)) == n && signed_decimal(n)[0] != '-',
        n < 0 ==> signed_decimal(n)[0] == '-' && number_of(signed_decimal(n).skip(1)) == -n,
{
    if n < 0 {
        law_decimal_reads_back((-n) as nat);
        assert(signed_decimal(n).skip(1) =~= decimal((-n) as nat));
    } else {
        law_decimal_reads_back(n as nat);
    }
}

/// The number that hexadecimal digits stand for.
pub open spec fn hex_number_of(digits: Seq<char>) -> nat
    decreases digits.len(),
{
    if digits.len() == 0 {
        0
    } else {
        let d: nat = match hex_value(digits.last()) {
            Some(v) => v,
            None => 0,
        };
        hex_number_of(digits.drop_last()) * 16 + d
    }
}

proof fn lemma_hex_chars(d: nat)
    requires
        d < 16,
    ensures
        hex_value(hex_char(d)) == Some(d),
        hex_value(upper_hex_char(d)) == Some(d),
{
}

/// A hexadecimal numeral stands for its number.
pub proof fn law_hex_reads_back(n: nat)
    ensures
        hex_number_of(hex(n)) == n,
        hex_number_of(hex_upper(n)) == n,
        hex(n).len() == hex_upper(n).len() > 0,
    decreases n,
{
    reveal_with_fuel(hex_number_of, 2);
    lemma_hex_chars(n % 16);
    if n < 16 {
        lemma_hex_chars(n);
        assert(hex(n).drop_last() =~= Seq::<char>::empty());
        assert(hex_upper(n).drop_last() =~= Seq::<char>::empty());
        assert(hex(n).last() == hex_char(n));
        assert(hex_upper(n).last() == upper_hex_char(n));
    } else {
        law_hex_reads_back(n / 16);
        assert(hex(n).drop_last() =~= hex(n / 16));
        assert(hex_upper(n).drop_last() =~= hex_upper(n / 16));
        assert(hex(n).last() == hex_char(n % 16));
        assert(hex_upper(n).last() == upper_hex_char(n % 16));
    }
}

/// A padded hexadecimal numeral has its width, and stands for its number where that
/// fits.
pub proof fn law_padded_hex_reads_back(n: nat, width: nat)
    ensures
        hex_padded(n, width).len() == width,
        n < vstd::arithmetic::power::pow(16, width) ==> hex_number_of(hex_padded(n, width)) == n,
    decreases width,
{
    if width == 0 {
        vstd::arithmetic::power::lemma_pow0(16);
    } else {
        let less = (width - 1) as nat;
        law_padded_hex_reads_back(n / 16, less);
        lemma_hex_chars(n % 16);
        let text = hex_padded(n, width);
        assert(text == hex_padded(n / 16, less).push(hex_char(n % 16)));
        assert(text.drop_last() =~= hex_padded(n / 16, less));
        assert(text.last() == hex_char(n % 16));
        reveal(vstd::arithmetic::power::pow);
        assert(vstd::arithmetic::power::pow(16, width) == 16 * vstd::arithmetic::power::pow(
            16,
            less,
        ));
    }
}

/// `true`, `false` and `null` stand for what they say.
pub proof fn law_json_literals(value: bool)
    ensures
        json_bool_text(true) == "true"@,
        json_bool_text(false) == "false"@,
        optional_bool_text(None) == "null"@,
        optional_bool_text(Some(value)) == json_bool_text(value),
{
}

/// Whether a listed object has each of some members.
pub open spec fn tells_all(object: Seq<char>, members: Seq<(Seq<char>, Seq<char>)>) -> bool {
    forall|i: int|
        0 <= i < members.len() ==> tells(object, (#[trigger] members[i]).0, members[i].1)
}

/// One more member at the end of a listed object: the text so far ends with its key and
/// what opens its value, and what follows closes it.
pub proof fn lemma_tells_one_more(
    text: Seq<char>,
    before: Seq<char>,
    key: Seq<char>,
    opening: Seq<char>,
    value: Seq<char>,
    closing: Seq<char>,
    after: Seq<char>,
    members: Seq<(Seq<char>, Seq<char>)>,
)
    requires
        text == before + ("\t\""@ + key + "\":"@ + opening),
        after.len() > 0,
        after[0] == ',' || after[0] == '\n',
        tells_all(text, members),
    ensures
        tells_all(
            text + value + (closing + after),
            members.push((key, opening + value + closing)),
        ),
{
    let whole = text + value + (closing + after);
    let more = members.push((key, opening + value + closing));
    assert forall|i: int| 0 <= i < more.len() implies tells(
        whole,
        (#[trigger] more[i]).0,
        more[i].1,
    ) by {
        if i < members.len() {
            let (k, v) = members[i];
            assert(tells(text, k, v));
            let (b, a) = choose|b: Seq<char>, a: Seq<char>| #[trigger]
                told_between(text, k, v, b, a);
            let tail = a + value + (closing + after);
            assert(whole =~= b + "\t\""@ + k + "\":"@ + v + tail);
            assert(tail[0] == a[0]);
            assert(told_between(whole, k, v, b, tail));
        } else {
            let v = opening + value + closing;
            assert(whole =~= before + "\t\""@ + key + "\":"@ + v + after);
            assert(told_between(whole, key, v, before, after));
        }
    }
}

/// A text in front of another two.
pub proof fn lemma_joined_in_front(a: Seq<char>, b: Seq<char>, c: Seq<char>)
    ensures
        a + (b + c) == a + b + c,
{
    assert(a + (b + c) =~= a + b + c);
}

} // verus!
