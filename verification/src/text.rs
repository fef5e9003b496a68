//! Text as sequences of characters: in and out of strings, searching, and
//! numbers in decimal.

use vstd::prelude::*;

verus! {

/// The lowercase form of a text, as the standard library gives it.
pub uninterp spec fn lowercase_of(text: Seq<char>) -> Seq<char>;

/// The lowercase form of a string.
///
/// Trusted: this is `str::to_lowercase`. All that is claimed of it is that
/// the result depends on nothing but the characters of the string; which
/// characters it maps to which is left to the standard library.
#[verifier::external_body]
pub(crate) fn to_lowercase(text: &str) -> (lower: String)
    ensures
        lower@ == lowercase_of(text@),
{
    text.to_lowercase()
}

/// What the standard library says of bytes that are not valid UTF-8: the
/// text of the error that `std::str::from_utf8` gives for them.
pub uninterp spec fn utf8_error_of(bytes: Seq<u8>) -> Seq<char>;

/// The text that bytes hold in UTF-8, or the text of the error that says why
/// they are not valid UTF-8.
///
/// Trusted: this is `std::str::from_utf8`, which accepts just the byte
/// sequences that are valid UTF-8 and gives the string whose encoding they
/// are. Of its error all that is claimed is that its text depends on the
/// bytes alone.
#[verifier::external_body]
pub(crate) fn utf8_text(bytes: &[u8]) -> (text: Result<&str, String>)
    ensures
        text is Ok <==> vstd::utf8::valid_utf8(bytes@),
        text matches Ok(t) ==> t@ == vstd::utf8::decode_utf8(bytes@),
        text matches Err(reason) ==> reason@ == utf8_error_of(bytes@),
{
    match std::str::from_utf8(bytes) {
        Ok(text) => Ok(text),
        Err(error) => Err(format!("{error}")),
    }
}

/// Appends one character to a string.
///
/// Trusted: this is `String::push`, which puts the character behind the last
/// one of the string and leaves the others in place.
#[verifier::external_body]
pub(crate) fn push_char(s: &mut String, c: char)
    ensures
        final(s)@ == old(s)@.push(c),
{
    s.push(c);
}

/// The characters of a string, in order.
pub fn chars_of(s: &str) -> (chars: Vec<char>)
    ensures
        chars@ == s@,
{
    let mut chars: Vec<char> = Vec::new();
    for c in it: s.chars()
        invariant
            it.seq() == s@,
            chars@ == s@.take(it.index() as int),
    {
        chars.push(c);
    }
    chars
}

/// The string made of the characters from `from` up to `to`.
pub fn string_of_range(chars: &Vec<char>, from: usize, to: usize) -> (s: String)
    requires
        from <= to <= chars.len(),
    ensures
        s@ == chars@.subrange(from as int, to as int),
{
    let mut s = String::new();
    let mut i: usize = from;
    while i < to
        invariant
            from <= i <= to <= chars.len(),
            s@ == chars@.subrange(from as int, i as int),
        decreases to - i,
    {
        push_char(&mut s, chars[i]);
        i += 1;
    }
    s
}

/// The index of the first `c` in `text` at or behind `from`, or the length of
/// `text` where there is none.
pub open spec fn position_from(text: Seq<char>, c: char, from: int) -> int
    decreases text.len() - from,
{
    if from < 0 || from >= text.len() {
        text.len() as int
    } else if text[from] == c {
        from
    } else {
        position_from(text, c, from + 1)
    }
}

/// `position_from` gives the least index from `from` on that holds `c`, and
/// the length only where none does.
pub proof fn lemma_position_from(text: Seq<char>, c: char, from: int)
    requires
        0 <= from <= text.len(),
    ensures
        from <= position_from(text, c, from) <= text.len(),
        position_from(text, c, from) < text.len() ==> text[position_from(text, c, from)] == c,
        forall|i: int| from <= i < position_from(text, c, from) ==> text[i] != c,
    decreases text.len() - from,
{
    if from < text.len() && text[from] != c {
        lemma_position_from(text, c, from + 1);
    }
}

/// A text holds `c` just where `position_from` finds it from the start.
pub proof fn lemma_position_contains(text: Seq<char>, c: char)
    ensures
        text.contains(c) <==> position_from(text, c, 0) < text.len(),
{
    lemma_position_from(text, c, 0);
    if text.contains(c) {
        let i = choose|i: int| 0 <= i < text.len() && text[i] == c;
        assert(text[i] == c);
    }
}

/// Finds the first `c` at or behind `from`.
pub fn find_char(chars: &Vec<char>, c: char, from: usize) -> (at: usize)
    requires
        from <= chars.len(),
    ensures
        at == position_from(chars@, c, from as int),
        from <= at <= chars.len(),
{
    let mut i: usize = from;
    while i < chars.len() && chars[i] != c
        invariant
            from <= i <= chars.len(),
            position_from(chars@, c, from as int) == position_from(chars@, c, i as int),
        decreases chars.len() - i,
    {
        i += 1;
    }
    i
}

/// Whether a line break (`\r\n`) stands at index `at` of `text`.
pub open spec fn break_at(text: Seq<char>, at: int) -> bool {
    0 <= at && at + 1 < text.len() && text[at] == '\r' && text[at + 1] == '\n'
}

/// The index of the first line break (`\r\n`) in `text` at or behind
/// `from`, or the length of `text` where there is none.
pub open spec fn break_from(text: Seq<char>, from: int) -> int
    decreases text.len() - from,
{
    if from < 0 || from + 1 >= text.len() {
        text.len() as int
    } else if break_at(text, from) {
        from
    } else {
        break_from(text, from + 1)
    }
}

/// `break_from` gives the least index from `from` on at which a line break
/// stands, and the length only where none does.
pub proof fn lemma_break_from(text: Seq<char>, from: int)
    requires
        0 <= from <= text.len(),
    ensures
        from <= break_from(text, from) <= text.len(),
        break_from(text, from) < text.len() ==> break_at(text, break_from(text, from)),
        forall|i: int| from <= i < break_from(text, from) ==> !#[trigger] break_at(text, i),
    decreases text.len() - from,
{
    if from + 1 < text.len() && !break_at(text, from) {
        lemma_break_from(text, from + 1);
    }
}

/// Finds the first line break at or behind `from`.
pub fn find_break(chars: &Vec<char>, from: usize) -> (at: usize)
    requires
        from <= chars.len(),
    ensures
        at == break_from(chars@, from as int),
        from <= at <= chars.len(),
        at < chars.len() ==> at + 2 <= chars.len(),
{
    let mut i: usize = from;
    while i < chars.len() && i + 1 < chars.len() && !(chars[i] == '\r' && chars[i + 1] == '\n')
        invariant
            from <= i <= chars.len(),
            break_from(chars@, from as int) == break_from(chars@, i as int),
        decreases chars.len() - i,
    {
        i += 1;
    }
    if chars.len() - i < 2 {
        chars.len()
    } else {
        i
    }
}

/// The character of a decimal digit.
pub open spec fn digit(value: int) -> char {
    (0x30 + value) as char
}

/// A number in decimal, without leading zeros.
pub open spec fn decimal(n: nat) -> Seq<char>
    decreases n,
{
    if n < 10 {
        seq![digit(n as int)]
    } else {
        decimal(n / 10).push(digit(n as int % 10))
    }
}

/// A number in decimal, with zeros in front of it where it has fewer than
/// `width` digits.
pub open spec fn decimal_padded(n: nat, width: nat) -> Seq<char> {
    if decimal(n).len() >= width {
        decimal(n)
    } else {
        Seq::new((width - decimal(n).len()) as nat, |i: int| '0') + decimal(n)
    }
}

/// Makes the character of a decimal digit.
fn digit_of(value: u64) -> (c: char)
    requires
        value < 10,
    ensures
        c == digit(value as int),
{
    (0x30 + value as u8) as char
}

/// Appends a number in decimal.
pub fn push_decimal(s: &mut String, n: u64)
    ensures
        final(s)@ == old(s)@ + decimal(n as nat),
    decreases n,
{
    if n >= 10 {
        push_decimal(s, n / 10);
    }
    push_char(s, digit_of(n % 10));
    assert(s@ =~= old(s)@ + decimal(n as nat));
}

/// A number below 2^64 has at most twenty digits.
pub proof fn lemma_decimal_len(n: nat)
    requires
        n <= u64::MAX,
    ensures
        1 <= decimal(n).len() <= 20,
{
    reveal_with_fuel(decimal, 21);
}

/// The number of digits of a number in decimal.
pub fn decimal_len(n: u64) -> (len: usize)
    ensures
        len == decimal(n as nat).len(),
        1 <= len <= 20,
{
    let mut len: usize = 1;
    let mut rest: u64 = n;
    proof {
        lemma_decimal_len(n as nat);
    }
    while rest >= 10
        invariant
            1 <= len,
            len + decimal(rest as nat).len() == decimal(n as nat).len() + 1,
            decimal(n as nat).len() <= 20,
        decreases rest,
    {
        proof {
            lemma_decimal_len((rest / 10) as nat);
        }
        rest = rest / 10;
        len += 1;
    }
    len
}

/// Appends a number in decimal, with zeros in front of it where it has fewer
/// than `width` digits.
pub fn push_padded(s: &mut String, n: u64, width: usize)
    ensures
        final(s)@ == old(s)@ + decimal_padded(n as nat, width as nat),
{
    let len = decimal_len(n);
    let ghost before = s@;
    let mut i: usize = len;
    while i < width
        invariant
            len <= i,
            i <= width || i == len,
            s@ == before + Seq::new((i - len) as nat, |k: int| '0'),
        decreases width - i,
    {
        push_char(s, '0');
        i += 1;
        assert(s@ =~= before + Seq::new((i - len) as nat, |k: int| '0'));
    }
    let ghost padded = s@;
    push_decimal(s, n);
    assert(s@ =~= before + decimal_padded(n as nat, width as nat));
}

} // verus!
