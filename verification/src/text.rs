//! Text as sequences of characters: trimming, splitting and decimal numbers.

use vstd::prelude::*;

verus! {

/// `String::push`: appends one character.
pub assume_specification[ String::push ](s: &mut String, c: char)
    ensures
        final(s)@ == old(s)@.push(c),
;

/// The characters of a string.
pub fn chars_of(s: &str) -> (chars: Vec<char>)
    ensures
        chars@ == s@,
{
    let mut chars: Vec<char> = Vec::new();
    for c in it: s.chars()
        invariant
            it.seq() == s@,
            chars@ == s@.take(it.index()),
    {
        chars.push(c);
        assert(s@.take(it.index() + 1) =~= s@.take(it.index()).push(c));
    }
    assert(s@.take(s@.len() as int) =~= s@);
    chars
}

/// The string made of part of a list of characters.
pub fn string_of(chars: &Vec<char>, from: usize, to: usize) -> (s: String)
    requires
        from <= to <= chars@.len(),
    ensures
        s@ == chars@.subrange(from as int, to as int),
{
    let mut s = String::new();
    let mut i: usize = from;
    assert(s@ =~= chars@.subrange(from as int, from as int));
    while i < to
        invariant
            from <= i <= to <= chars@.len(),
            s@ == chars@.subrange(from as int, i as int),
        decreases to - i,
    {
        s.push(chars[i]);
        assert(s@ =~= chars@.subrange(from as int, i + 1));
        i += 1;
    }
    s
}

/// Whether two texts are the same.
pub fn same_text(a: &str, b: &str) -> (same: bool)
    ensures
        same == (a@ == b@),
{
    let a = a.to_owned();
    let b = b.to_owned();
    a == b
}

/// The characters with the Unicode property White_Space.
pub open spec fn is_white_space(c: char) -> bool {
    ||| '\u{9}' <= c <= '\u{d}'
    ||| c == ' '
    ||| c == '\u{85}'
    ||| c == '\u{a0}'
    ||| c == '\u{1680}'
    ||| '\u{2000}' <= c <= '\u{200a}'
    ||| c == '\u{2028}'
    ||| c == '\u{2029}'
    ||| c == '\u{202f}'
    ||| c == '\u{205f}'
    ||| c == '\u{3000}'
}

/// Which characters to trim.
#[derive(Clone, Copy, Debug, PartialEq, Eq)]
pub enum Strip {
    WhiteSpace,
    Only(char),
}

impl Strip {
    /// Whether a character is one to trim.
    pub open spec fn takes(self, c: char) -> bool {
        match self {
            Strip::WhiteSpace => is_white_space(c),
            Strip::Only(only) => c == only,
        }
    }

    /// Whether a character is one to trim.
    pub fn strips(self, c: char) -> (taken: bool)
        ensures
            taken == self.takes(c),
    {
        match self {
            Strip::WhiteSpace => ('\u{9}' <= c && c <= '\u{d}') || c == ' ' || c == '\u{85}' || c
                == '\u{a0}' || c == '\u{1680}' || ('\u{2000}' <= c && c <= '\u{200a}') || c
                == '\u{2028}' || c == '\u{2029}' || c == '\u{202f}' || c == '\u{205f}' || c
                == '\u{3000}',
            Strip::Only(only) => c == only,
        }
    }
}

/// A text without the characters to trim at its front.
pub open spec fn trimmed_front(s: Seq<char>, strip: Strip) -> Seq<char>
    decreases s.len(),
{
    if s.len() > 0 && strip.takes(s[0]) {
        trimmed_front(s.drop_first(), strip)
    } else {
        s
    }
}

/// A text without the characters to trim at its back.
pub open spec fn trimmed_back(s: Seq<char>, strip: Strip) -> Seq<char>
    decreases s.len(),
{
    if s.len() > 0 && strip.takes(s.last()) {
        trimmed_back(s.drop_last(), strip)
    } else {
        s
    }
}

/// A text without the characters to trim at either end.
pub open spec fn trimmed(s: Seq<char>, strip: Strip) -> Seq<char> {
    trimmed_back(trimmed_front(s, strip), strip)
}

/// Narrows a part of a list of characters to what trimming leaves of it.
pub fn trim_range(chars: &Vec<char>, from: usize, to: usize, strip: Strip) -> (kept: (usize, usize))
    requires
        from <= to <= chars@.len(),
    ensures
        from <= kept.0 <= kept.1 <= to,
        chars@.subrange(kept.0 as int, kept.1 as int) == trimmed(
            chars@.subrange(from as int, to as int),
            strip,
        ),
{
    let ghost whole = chars@.subrange(from as int, to as int);
    let mut lo: usize = from;
    while lo < to && strip.strips(chars[lo])
        invariant
            from <= lo <= to <= chars@.len(),
            trimmed_front(chars@.subrange(lo as int, to as int), strip) == trimmed_front(
                whole,
                strip,
            ),
        decreases to - lo,
    {
        assert(chars@.subrange(lo as int, to as int).drop_first() =~= chars@.subrange(
            lo + 1,
            to as int,
        ));
        lo += 1;
    }
    let ghost front = chars@.subrange(lo as int, to as int);
    assert(trimmed_front(whole, strip) == front);
    let mut hi: usize = to;
    while lo < hi && strip.strips(chars[hi - 1])
        invariant
            from <= lo <= hi <= to <= chars@.len(),
            trimmed_back(chars@.subrange(lo as int, hi as int), strip) == trimmed_back(
                front,
                strip,
            ),
        decreases hi - lo,
    {
        assert(chars@.subrange(lo as int, hi as int).drop_last() =~= chars@.subrange(
            lo as int,
            hi - 1,
        ));
        hi -= 1;
    }
    (lo, hi)
}

/// The position of the first occurrence of a character, or the length.
pub open spec fn first_of(s: Seq<char>, c: char) -> int
    decreases s.len(),
{
    if s.len() == 0 || s[0] == c {
        0
    } else {
        1 + first_of(s.drop_first(), c)
    }
}

/// The first occurrence lies within the text or at its end, is one, and has none
/// before it.
pub proof fn lemma_first_of(s: Seq<char>, c: char)
    ensures
        0 <= first_of(s, c) <= s.len(),
        first_of(s, c) < s.len() ==> s[first_of(s, c)] == c,
        forall|i: int| 0 <= i < first_of(s, c) ==> s[i] != c,
    decreases s.len(),
{
    if s.len() > 0 && s[0] != c {
        lemma_first_of(s.drop_first(), c);
        assert forall|i: int| 0 <= i < first_of(s, c) implies s[i] != c by {
            if i > 0 {
                assert(s.drop_first()[i - 1] == s[i]);
            }
        }
    }
}

/// The first occurrence is the only position with no occurrence before it that is one
/// or the end.
pub proof fn lemma_first_of_unique(s: Seq<char>, c: char, at: int)
    requires
        0 <= at <= s.len(),
        at < s.len() ==> s[at] == c,
        forall|i: int| 0 <= i < at ==> s[i] != c,
    ensures
        first_of(s, c) == at,
{
    lemma_first_of(s, c);
    let f = first_of(s, c);
    if f < at {
        assert(s[f] != c);
    }
    if at < f {
        assert(s[at] != c);
    }
}

/// Finds a character in part of a list of characters: the position of its first
/// occurrence there, or the end of the part.
pub fn find_char(chars: &Vec<char>, from: usize, to: usize, c: char) -> (at: usize)
    requires
        from <= to <= chars@.len(),
    ensures
        from <= at <= to,
        at - from == first_of(chars@.subrange(from as int, to as int), c),
{
    let ghost part = chars@.subrange(from as int, to as int);
    let mut at: usize = from;
    while at < to && chars[at] != c
        invariant
            from <= at <= to <= chars@.len(),
            part == chars@.subrange(from as int, to as int),
            forall|i: int| 0 <= i < at - from ==> part[i] != c,
        decreases to - at,
    {
        assert(part[at - from] == chars@[at as int]);
        at += 1;
    }
    proof {
        if at < to {
            assert(part[at - from] == chars@[at as int]);
        }
        lemma_first_of_unique(part, c, at - from);
    }
    at
}

/// The lines of a text: what stands between line feeds, with nothing after a last one.
pub open spec fn lines(s: Seq<char>) -> Seq<Seq<char>>
    decreases s.len(),
    via lines_decreases
{
    if s.len() == 0 {
        Seq::empty()
    } else {
        let end = first_of(s, '\n');
        if end < s.len() {
            seq![s.take(end)] + lines(s.skip(end + 1))
        } else {
            seq![s]
        }
    }
}

#[via_fn]
proof fn lines_decreases(s: Seq<char>) {
    lemma_first_of(s, '\n');
}

/// The digit with a value below ten.
pub open spec fn digit(value: int) -> char {
    if value == 0 {
        '0'
    } else if value == 1 {
        '1'
    } else if value == 2 {
        '2'
    } else if value == 3 {
        '3'
    } else if value == 4 {
        '4'
    } else if value == 5 {
        '5'
    } else if value == 6 {
        '6'
    } else if value == 7 {
        '7'
    } else if value == 8 {
        '8'
    } else {
        '9'
    }
}

/// The value of a decimal digit.
pub open spec fn digit_value(c: char) -> Option<int> {
    if '0' <= c <= '9' {
        Some(c as int - '0' as int)
    } else {
        None
    }
}

/// The decimal notation of a number.
pub open spec fn decimal(n: nat) -> Seq<char>
    decreases n,
{
    if n < 10 {
        seq![digit(n as int)]
    } else {
        decimal(n / 10).push(digit((n % 10) as int))
    }
}

fn digit_char(value: u64) -> (c: char)
    requires
        value < 10,
    ensures
        c == digit(value as int),
{
    if value == 0 {
        '0'
    } else if value == 1 {
        '1'
    } else if value == 2 {
        '2'
    } else if value == 3 {
        '3'
    } else if value == 4 {
        '4'
    } else if value == 5 {
        '5'
    } else if value == 6 {
        '6'
    } else if value == 7 {
        '7'
    } else if value == 8 {
        '8'
    } else {
        '9'
    }
}

/// Appends the decimal notation of a number.
pub fn push_decimal(out: &mut String, n: u64)
    ensures
        final(out)@ == old(out)@ + decimal(n as nat),
    decreases n,
{
    if n >= 10 {
        push_decimal(out, n / 10);
    }
    out.push(digit_char(n % 10));
    assert(out@ =~= old(out)@ + decimal(n as nat));
}

/// The number that a string of digits denotes.
pub open spec fn digits_value(s: Seq<char>) -> int
    decreases s.len(),
{
    if s.len() == 0 {
        0
    } else {
        digits_value(s.drop_last()) * 10 + digit_value(s.last())->0
    }
}

/// Whether every character is a decimal digit.
pub open spec fn all_digits(s: Seq<char>) -> bool {
    forall|i: int| 0 <= i < s.len() ==> digit_value(#[trigger] s[i]) is Some
}

/// The digits of a number in text: what follows an optional plus sign.
pub open spec fn unsigned_digits(s: Seq<char>) -> Seq<char> {
    if s.len() > 0 && s[0] == '+' {
        s.drop_first()
    } else {
        s
    }
}

/// Reads a `u64` in decimal: an optional plus sign and then digits only, at least one,
/// that denote a number in range.
pub open spec fn decimal_u64(s: Seq<char>) -> Option<u64> {
    let digits = unsigned_digits(s);
    if digits.len() > 0 && all_digits(digits) && digits_value(digits) <= u64::MAX {
        Some(digits_value(digits) as u64)
    } else {
        None
    }
}

/// The value of digits is no less than that of any of their prefixes.
proof fn lemma_digits_value_grows(s: Seq<char>, n: int)
    requires
        all_digits(s),
        0 <= n <= s.len(),
    ensures
        0 <= digits_value(s.take(n)) <= digits_value(s),
    decreases s.len(),
{
    if s.len() == 0 {
        assert(s.take(n) =~= s);
    } else {
        let shorter = s.drop_last();
        assert forall|i: int| 0 <= i < shorter.len() implies digit_value(#[trigger] shorter[i]) is Some by {
            assert(shorter[i] == s[i]);
        }
        assert(digit_value(s[s.len() - 1]) is Some);
        if n < s.len() {
            lemma_digits_value_grows(shorter, n);
            assert(shorter.take(n) =~= s.take(n));
        } else {
            lemma_digits_value_grows(shorter, 0);
            assert(shorter.take(0) =~= Seq::<char>::empty());
            assert(s.take(n) =~= s);
        }
    }
}

/// Reads a `u64` in decimal.
pub fn parse_decimal(s: &str) -> (value: Option<u64>)
    ensures
        value == decimal_u64(s@),
{
    let chars = chars_of(s);
    let mut i: usize = 0;
    if chars.len() > 0 && chars[0] == '+' {
        i = 1;
    }
    let ghost digits = unsigned_digits(s@);
    let ghost start = i as int;
    assert(digits =~= chars@.skip(start));
    if i == chars.len() {
        return None;
    }
    let mut value: u64 = 0;
    assert(digits.take(0) =~= Seq::<char>::empty());
    while i < chars.len()
        invariant
            0 <= start <= i <= chars@.len(),
            digits == chars@.skip(start),
            value == digits_value(digits.take(i - start)),
            forall|j: int| 0 <= j < i - start ==> digit_value(#[trigger] digits[j]) is Some,
            digits == unsigned_digits(s@),
        decreases chars@.len() - i,
    {
        let c = chars[i];
        let ghost k = i - start;
        assert(digits[k] == c);
        if !('0' <= c && c <= '9') {
            assert(digit_value(digits[k]) is None);
            return None;
        }
        let d: u64 = (c as u32 - '0' as u32) as u64;
        proof {
            assert(digits.take(k + 1).drop_last() =~= digits.take(k));
            assert(digits.take(k + 1).last() == c);
            assert(digits_value(digits.take(k + 1)) == value * 10 + d);
            if all_digits(digits) {
                lemma_digits_value_grows(digits, k + 1);
            }
        }
        if value > (u64::MAX - d) / 10 {
            assert(value * 10 + d > u64::MAX);
            return None;
        }
        value = value * 10 + d;
        i += 1;
    }
    assert(digits.take(i - start) =~= digits);
    Some(value)
}

/// The digits of the decimal notation denote the number.
proof fn lemma_decimal_value(n: nat)
    ensures
        decimal(n).len() > 0,
        all_digits(decimal(n)),
        digits_value(decimal(n)) == n,
    decreases n,
{
    let s = decimal(n);
    if n < 10 {
        assert(s.drop_last() =~= Seq::<char>::empty());
        assert(digits_value(s.drop_last()) == 0);
    } else {
        lemma_decimal_value(n / 10);
        assert(s.drop_last() =~= decimal(n / 10));
        assert forall|i: int| 0 <= i < s.len() implies digit_value(#[trigger] s[i]) is Some by {
            if i < s.len() - 1 {
                assert(decimal(n / 10)[i] == s[i]);
            }
        }
    }
}

/// Reading the decimal notation of a number gives the number back.
pub proof fn law_decimal_round_trip(n: u64)
    ensures
        decimal_u64(decimal(n as nat)) == Some(n),
{
    lemma_decimal_value(n as nat);
    assert(digit_value(decimal(n as nat)[0]) is Some);
}

/// Trimming takes characters from the ends only, all of them to be trimmed, and leaves no
/// such character at either end.
pub proof fn law_trimming_takes_only_the_ends(s: Seq<char>, strip: Strip) -> (ends: (int, int))
    ensures
        0 <= ends.0 <= ends.1 <= s.len(),
        trimmed(s, strip) == s.subrange(ends.0, ends.1),
        forall|i: int| 0 <= i < ends.0 ==> strip.takes(s[i]),
        forall|i: int| ends.1 <= i < s.len() ==> strip.takes(s[i]),
        ends.0 < ends.1 ==> !strip.takes(s[ends.0]) && !strip.takes(s[ends.1 - 1]),
{
    let lo = lemma_trimmed_front(s, strip);
    let front = s.skip(lo);
    let n = lemma_trimmed_back(front, strip);
    assert(front.take(n) =~= s.subrange(lo, lo + n));
    assert forall|i: int| lo + n <= i < s.len() implies strip.takes(s[i]) by {
        assert(front[i - lo] == s[i]);
    }
    if n > 0 {
        assert(front[0] == s[lo]);
        assert(front[n - 1] == s[lo + n - 1]);
        assert(lo < s.len());
    }
    (lo, lo + n)
}

proof fn lemma_trimmed_front(s: Seq<char>, strip: Strip) -> (lo: int)
    ensures
        0 <= lo <= s.len(),
        trimmed_front(s, strip) == s.skip(lo),
        forall|i: int| 0 <= i < lo ==> strip.takes(s[i]),
        lo < s.len() ==> !strip.takes(s[lo]),
    decreases s.len(),
{
    if s.len() > 0 && strip.takes(s[0]) {
        let rest = s.drop_first();
        let lo = lemma_trimmed_front(rest, strip);
        assert(rest.skip(lo) =~= s.skip(lo + 1));
        assert forall|i: int| 0 <= i < lo + 1 implies strip.takes(s[i]) by {
            if i > 0 {
                assert(rest[i - 1] == s[i]);
            }
        }
        lo + 1
    } else {
        assert(s.skip(0) =~= s);
        0
    }
}

proof fn lemma_trimmed_back(s: Seq<char>, strip: Strip) -> (hi: int)
    ensures
        0 <= hi <= s.len(),
        trimmed_back(s, strip) == s.take(hi),
        forall|i: int| hi <= i < s.len() ==> strip.takes(s[i]),
        hi > 0 ==> !strip.takes(s[hi - 1]),
    decreases s.len(),
{
    if s.len() > 0 && strip.takes(s.last()) {
        let rest = s.drop_last();
        let hi = lemma_trimmed_back(rest, strip);
        assert(rest.take(hi) =~= s.take(hi));
        assert forall|i: int| hi <= i < s.len() implies strip.takes(s[i]) by {
            if i < s.len() - 1 {
                assert(rest[i] == s[i]);
            }
        }
        hi
    } else {
        assert(s.take(s.len() as int) =~= s);
        s.len() as int
    }
}

/// Which characters are trimmed: one, or blanks, among them spaces, tabs and line ends, but
/// no letters, digits or quotes.
pub proof fn law_strips_what_it_is_for(only: char, c: char, exactly: bool, blank: bool)
    requires
        call_ensures(Strip::strips, (Strip::Only(only), c), exactly),
        call_ensures(Strip::strips, (Strip::WhiteSpace, c), blank),
    ensures
        exactly <==> c == only,
        c == ' ' || c == '\t' || c == '\n' || c == '\r' ==> blank,
        '!' <= c <= '~' ==> !blank,
{
}

/// A text is cut into lines at its line feeds: the first line ends at the first one, and
/// the rest is cut in the same way; a last line needs none.
pub proof fn law_lines_end_at_line_feeds(line: Seq<char>, rest: Seq<char>)
    requires
        forall|i: int| 0 <= i < line.len() ==> line[i] != '\n',
    ensures
        lines(line + seq!['\n'] + rest) == seq![line] + lines(rest),
        line.len() > 0 ==> lines(line) == seq![line],
        lines(Seq::empty()).len() == 0,
{
    let whole = line + seq!['\n'] + rest;
    let n = line.len() as int;
    lemma_first_of_unique(whole, '\n', n);
    assert(whole.take(n) =~= line);
    assert(whole.skip(n + 1) =~= rest);
    lemma_first_of_unique(line, '\n', n);
}

/// A number is written without superfluous zeros and read back, also behind a plus sign;
/// writing appends.
pub proof fn law_written_numbers_are_read_back(out: &mut String, n: u64, s: &str, read: Option<u64>)
    requires
        call_ensures(push_decimal, (out, n), ()),
        call_ensures(parse_decimal, (s,), read),
    ensures
        final(out)@.len() > old(out)@.len(),
        final(out)@.take(old(out)@.len() as int) == old(out)@,
        n > 0 ==> final(out)@[old(out)@.len() as int] != '0',
        s@ == final(out)@.skip(old(out)@.len() as int) ==> read == Some(n),
        s@ == seq!['+'] + final(out)@.skip(old(out)@.len() as int) ==> read == Some(n),
        s@.len() == 0 ==> read is None,
{
    let text = decimal(n as nat);
    lemma_decimal_value(n as nat);
    lemma_no_leading_zero(n as nat);
    law_decimal_round_trip(n);
    assert(final(out)@.take(old(out)@.len() as int) =~= old(out)@);
    assert(final(out)@.skip(old(out)@.len() as int) =~= text);
    assert((seq!['+'] + text).drop_first() =~= text);
}

proof fn lemma_no_leading_zero(n: nat)
    ensures
        decimal(n).len() > 0,
        n > 0 ==> decimal(n)[0] != '0',
    decreases n,
{
    if n >= 10 {
        lemma_no_leading_zero(n / 10);
    }
}

} // verus!
