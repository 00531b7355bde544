//! Hexadecimal text.

use vstd::prelude::*;

verus! {

/// The lower-case hexadecimal digit with a value below sixteen.
pub open spec fn hex_digit(value: u8) -> char {
    if value < 10 {
        ('0' as int + value) as char
    } else {
        ('a' as int + (value - 10)) as char
    }
}

/// The value of a hexadecimal digit in either case.
pub open spec fn hex_value(c: char) -> Option<int> {
    if '0' <= c <= '9' {
        Some(c as int - '0' as int)
    } else if 'a' <= c <= 'f' {
        Some(c as int - 'a' as int + 10)
    } else if 'A' <= c <= 'F' {
        Some(c as int - 'A' as int + 10)
    } else {
        None
    }
}

/// The hexadecimal text of bytes: two lower-case digits for each.
pub open spec fn hex_text(bytes: Seq<u8>) -> Seq<char> {
    Seq::new(
        2 * bytes.len(),
        |i: int|
            if i % 2 == 0 {
                hex_digit(bytes[i / 2] / 16)
            } else {
                hex_digit(bytes[i / 2] % 16)
            },
    )
}

/// A space, a tab, a carriage return or a line feed.
pub open spec fn is_hex_space(c: char) -> bool {
    c == ' ' || c == '\t' || c == '\r' || c == '\n'
}

/// A text without a leading `0X`, or a leading `0x` where lower case counts too.
pub open spec fn without_prefix(s: Seq<char>, lower: bool) -> Seq<char> {
    if s.len() >= 2 && s[0] == '0' && (s[1] == 'X' || (lower && s[1] == 'x')) {
        s.skip(2)
    } else {
        s
    }
}

/// The bytes that pairs of hexadecimal digits spell; nothing when a digit is missing or
/// a character is no digit.
pub open spec fn paired_digits(s: Seq<char>) -> Option<Seq<u8>> {
    if s.len() % 2 == 0 && (forall|i: int| 0 <= i < s.len() ==> hex_value(#[trigger] s[i]) is Some) {
        Some(
            Seq::new(
                s.len() / 2,
                |i: int| (hex_value(s[2 * i])->0 * 16 + hex_value(s[2 * i + 1])->0) as u8,
            ),
        )
    } else {
        None
    }
}

/// The bytes of a hexadecimal text: blanks are left out wherever they stand, then a
/// leading `0X`, then one more leading `0x` or `0X`, and pairs of digits remain.
pub open spec fn hex_bytes(s: Seq<char>) -> Option<Seq<u8>> {
    let dense = s.filter(|c: char| !is_hex_space(c));
    paired_digits(without_prefix(without_prefix(dense, false), true))
}

/// `commonware_formatting::from_hex`: drops spaces, tabs, carriage returns and line
/// feeds, then a prefix `0X`, then (in `const_hex::decode`) a prefix `0x` or `0X`, and
/// succeeds exactly when an even number of hexadecimal digits in either case is left,
/// with the bytes that they spell in pairs.
#[verifier::external_body]
fn formatting_from_hex(s: &str) -> (bytes: Option<Vec<u8>>)
    ensures
        bytes is Some <==> hex_bytes(s@) is Some,
        bytes matches Some(b) ==> hex_bytes(s@) == Some(b@),
{
    commonware_formatting::from_hex(s)
}

/// Reads hexadecimal text.
pub fn from_hex(s: &str) -> (bytes: Option<Vec<u8>>)
    ensures
        bytes is Some <==> hex_bytes(s@) is Some,
        bytes matches Some(b) ==> hex_bytes(s@) == Some(b@),
{
    formatting_from_hex(s)
}

fn hex_char(value: u8) -> (c: char)
    requires
        value < 16,
    ensures
        c == hex_digit(value),
{
    if value < 10 {
        (48 + value) as char
    } else {
        (87 + value) as char
    }
}

/// Writes bytes as lower-case hexadecimal text.
pub fn hex(value: &[u8]) -> (text: String)
    ensures
        text@ == hex_text(value@),
{
    let mut out = String::new();
    let mut i: usize = 0;
    assert(out@ =~= hex_text(value@.take(0)));
    while i < value.len()
        invariant
            i <= value@.len(),
            out@ == hex_text(value@.take(i as int)),
        decreases value@.len() - i,
    {
        let byte = value[i];
        out.push(hex_char(byte / 16));
        out.push(hex_char(byte % 16));
        assert(out@ =~= hex_text(value@.take(i + 1)));
        i += 1;
    }
    assert(value@.take(i as int) =~= value@);
    out
}

/// Writes a 32-byte value as hexadecimal text.
pub fn hex32(value: [u8; 32]) -> (text: String)
    ensures
        text@ == hex_text(value@),
{
    hex(value.as_slice())
}

/// Writes a 29-byte value as hexadecimal text.
pub fn hex29(value: [u8; 29]) -> (text: String)
    ensures
        text@ == hex_text(value@),
{
    hex(value.as_slice())
}

/// Filtering leaves a sequence as it is where everything in it passes.
proof fn lemma_filter_keeps(s: Seq<char>, keep: spec_fn(char) -> bool)
    requires
        forall|i: int| 0 <= i < s.len() ==> keep(#[trigger] s[i]),
    ensures
        s.filter(keep) == s,
    decreases s.len(),
{
    reveal(Seq::filter);
    if s.len() > 0 {
        let shorter = s.drop_last();
        assert forall|i: int| 0 <= i < shorter.len() implies keep(#[trigger] shorter[i]) by {
            assert(shorter[i] == s[i]);
        }
        lemma_filter_keeps(shorter, keep);
        assert(keep(s[s.len() - 1]));
        assert(s =~= shorter.push(s.last()));
    }
}

/// Reading the hexadecimal text of bytes gives the bytes back.
pub proof fn law_hex_round_trip(bytes: Seq<u8>)
    ensures
        hex_bytes(hex_text(bytes)) == Some(bytes),
{
    let s = hex_text(bytes);
    assert forall|i: int| 0 <= i < s.len() implies hex_value(#[trigger] s[i]) is Some && !is_hex_space(
        s[i],
    ) && s[i] != 'x' && s[i] != 'X' by {
        assert(s[i] == hex_digit(bytes[i / 2] / 16) || s[i] == hex_digit(bytes[i / 2] % 16));
    }
    lemma_filter_keeps(s, |c: char| !is_hex_space(c));
    let back = paired_digits(s);
    assert(back is Some);
    assert forall|i: int| 0 <= i < bytes.len() implies (#[trigger] back->0[i]) == bytes[i] by {
        assert((2 * i) % 2 == 0 && (2 * i) / 2 == i && (2 * i + 1) % 2 == 1 && (2 * i + 1) / 2 == i);
        assert(s[2 * i] == hex_digit(bytes[i] / 16));
        assert(s[2 * i + 1] == hex_digit(bytes[i] % 16));
    }
    assert(back->0 =~= bytes);
}

/// Hexadecimal text has two lower-case digits for each byte, the more significant first.
pub proof fn law_hex_digits_spell_the_bytes(bytes: &[u8], text: String, i: int)
    requires
        call_ensures(hex, (bytes,), text),
        0 <= i < bytes@.len(),
    ensures
        text@.len() == 2 * bytes@.len(),
        hex_value(text@[2 * i]) matches Some(high) && hex_value(text@[2 * i + 1]) matches Some(low)
            && high * 16 + low == bytes@[i],
        '0' <= text@[2 * i] <= '9' || 'a' <= text@[2 * i] <= 'f',
        '0' <= text@[2 * i + 1] <= '9' || 'a' <= text@[2 * i + 1] <= 'f',
{
    assert((2 * i) % 2 == 0 && (2 * i) / 2 == i && (2 * i + 1) % 2 == 1 && (2 * i + 1) / 2 == i);
}

/// What was written in hexadecimal is read back, at any length.
pub proof fn law_written_hex_is_read_back(
    bytes: &[u8],
    text: String,
    digest: [u8; 32],
    digest_text: String,
    namespace: [u8; 29],
    namespace_text: String,
    s: &str,
    read: Option<Vec<u8>>,
)
    requires
        call_ensures(hex, (bytes,), text),
        call_ensures(hex32, (digest,), digest_text),
        call_ensures(hex29, (namespace,), namespace_text),
        call_ensures(from_hex, (s,), read),
    ensures
        s@ == text@ ==> (read matches Some(found) && found@ == bytes@),
        s@ == digest_text@ ==> (read matches Some(found) && found@ == digest@),
        s@ == namespace_text@ ==> (read matches Some(found) && found@ == namespace@),
{
    law_hex_round_trip(bytes@);
    law_hex_round_trip(digest@);
    law_hex_round_trip(namespace@);
}

/// Blanks do not count in hexadecimal text, wherever they stand.
pub proof fn law_blanks_do_not_count(a: Seq<char>, blank: char, b: Seq<char>)
    requires
        blank == ' ' || blank == '\t' || blank == '\r' || blank == '\n',
    ensures
        hex_bytes(a + seq![blank] + b) == hex_bytes(a + b),
{
    let keep = |c: char| !is_hex_space(c);
    let one = seq![blank];
    Seq::filter_distributes_over_add(a, b, keep);
    Seq::filter_distributes_over_add(a + one, b, keep);
    Seq::filter_distributes_over_add(a, one, keep);
    assert forall|i: int| 0 <= i < one.len() implies !keep(#[trigger] one[i]) by {}
    one.lemma_all_neg_filter_empty(keep);
    assert(one.filter(keep) =~= Seq::<char>::empty());
    assert(a.filter(keep) + Seq::<char>::empty() =~= a.filter(keep));
}

/// Hexadecimal text holds neither blanks nor an x.
proof fn lemma_hex_text_is_dense(bytes: Seq<u8>)
    ensures
        forall|i: int|
            0 <= i < hex_text(bytes).len() ==> !is_hex_space(#[trigger] hex_text(bytes)[i])
                && hex_text(bytes)[i] != 'x' && hex_text(bytes)[i] != 'X',
{
    let s = hex_text(bytes);
    assert forall|i: int| 0 <= i < s.len() implies !is_hex_space(#[trigger] s[i]) && s[i] != 'x'
        && s[i] != 'X' by {
        assert(s[i] == hex_digit(bytes[i / 2] / 16) || s[i] == hex_digit(bytes[i / 2] % 16));
    }
}

/// Text behind a prefix spells what it spells without.
proof fn lemma_prefixed(s: Seq<char>, x: char)
    requires
        x == 'x' || x == 'X',
        forall|i: int|
            0 <= i < s.len() ==> !is_hex_space(#[trigger] s[i]) && s[i] != 'x' && s[i] != 'X',
    ensures
        hex_bytes(seq!['0', x] + s) == paired_digits(s),
        hex_bytes(s) == paired_digits(s),
{
    let keep = |c: char| !is_hex_space(c);
    let whole = seq!['0', x] + s;
    assert forall|i: int| 0 <= i < whole.len() implies keep(#[trigger] whole[i]) by {
        if i >= 2 {
            assert(whole[i] == s[i - 2]);
        }
    }
    lemma_filter_keeps(s, keep);
    lemma_filter_keeps(whole, keep);
    assert(whole.skip(2) =~= s);
}

/// A prefix does not count in hexadecimal text.
pub proof fn law_prefix_does_not_count(bytes: Seq<u8>)
    ensures
        hex_bytes(seq!['0', 'x'] + hex_text(bytes)) == Some(bytes),
        hex_bytes(seq!['0', 'X'] + hex_text(bytes)) == Some(bytes),
{
    law_hex_round_trip(bytes);
    lemma_hex_text_is_dense(bytes);
    lemma_prefixed(hex_text(bytes), 'x');
    lemma_prefixed(hex_text(bytes), 'X');
}

} // verus!
