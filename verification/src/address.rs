//! The address that the server listens on.
//!
//! The operator types an IPv4 address in dotted form, `a.b.c.d`, on one line.
//! The server listens on that address, on [`PORT`].

use vstd::prelude::*;
use vstd::string::*;

verus! {

/// The port that the server listens on.
pub const PORT: u16 = 80;

/// Whether `c` is white space as Unicode defines it: one of the twenty-five
/// characters that have the property `White_Space`.
pub open spec fn is_white_space(c: char) -> bool {
    let u = c as u32;
    ||| 0x09 <= u <= 0x0d
    ||| u == 0x20
    ||| u == 0x85
    ||| u == 0xa0
    ||| u == 0x1680
    ||| 0x2000 <= u <= 0x200a
    ||| u == 0x2028
    ||| u == 0x2029
    ||| u == 0x202f
    ||| u == 0x205f
    ||| u == 0x3000
}

/// The first index at or after `from` that holds no white space; the length
/// of `s` where there is none.
pub open spec fn text_start(s: Seq<char>, from: int) -> int
    decreases s.len() - from,
{
    if 0 <= from < s.len() && is_white_space(s[from]) {
        text_start(s, from + 1)
    } else {
        from
    }
}

/// The least index such that everything from it up to `to` is white space.
pub open spec fn text_end(s: Seq<char>, to: int) -> int
    decreases to,
{
    if 0 < to <= s.len() && is_white_space(s[to - 1]) {
        text_end(s, to - 1)
    } else {
        to
    }
}

/// `s` without the white space at its two ends.
pub open spec fn spec_trimmed(s: Seq<char>) -> Seq<char> {
    let start = text_start(s, 0);
    let end = text_end(s, s.len() as int);
    if start < end {
        s.subrange(start, end)
    } else {
        Seq::empty()
    }
}

/// The first index at or after `from` that holds a dot; the length of `s`
/// where there is none.
pub open spec fn piece_end(s: Seq<char>, from: int) -> int
    decreases s.len() - from,
{
    if 0 <= from < s.len() && s[from] != '.' {
        piece_end(s, from + 1)
    } else {
        from
    }
}

/// Where piece number `n` of `s` begins, counted from zero: the first at the
/// start of `s`, every other right after the dot that ends the one before
/// it. A result beyond the length of `s` says that `s` has no such piece.
pub open spec fn piece_start(s: Seq<char>, n: nat) -> int
    decreases n,
{
    if n == 0 {
        0
    } else {
        piece_end(s, piece_start(s, (n - 1) as nat)) + 1
    }
}

/// Piece number `n` of `s` cut at its dots. Every dot separates two pieces:
/// a piece may be empty.
pub open spec fn spec_piece(s: Seq<char>, n: nat) -> Option<Seq<char>> {
    let start = piece_start(s, n);
    if start <= s.len() {
        Some(s.subrange(start, piece_end(s, start)))
    } else {
        None
    }
}

/// Whether `c` is one of the ten decimal digits.
pub open spec fn is_digit(c: char) -> bool {
    '0' <= c && c <= '9'
}

/// The number that a string of decimal digits writes.
pub open spec fn spec_decimal(digits: Seq<char>) -> nat
    decreases digits.len(),
{
    if digits.len() == 0 {
        0
    } else {
        spec_decimal(digits.drop_last()) * 10 + (digits.last() as u32 - '0' as u32) as nat
    }
}

/// The digits of a piece: the piece itself, less a plus sign that opens it.
pub open spec fn spec_digits(piece: Seq<char>) -> Seq<char> {
    if piece.len() > 0 && piece[0] == '+' {
        piece.skip(1)
    } else {
        piece
    }
}

/// The number between 0 and 255 that `piece` writes in decimal digits, with
/// or without a plus sign before them. A piece without a digit, with any
/// other character, or that writes a greater number, writes none.
pub open spec fn spec_octet(piece: Seq<char>) -> Option<u8> {
    let digits = spec_digits(piece);
    if digits.len() > 0 && (forall|i: int| 0 <= i < digits.len() ==> is_digit(#[trigger] digits[i]))
        && spec_decimal(digits) <= 255 {
        Some(spec_decimal(digits) as u8)
    } else {
        None
    }
}

/// Octet number `n` of a line, where it has one.
pub open spec fn spec_octet_at(text: Seq<char>, n: nat) -> Option<u8> {
    match spec_piece(text, n) {
        Some(piece) => spec_octet(piece),
        None => None,
    }
}

/// The address that a line of input names: the four numbers that its first
/// four pieces write, once the white space around the line is taken off.
/// What follows a fourth dot is not looked at.
pub open spec fn spec_parse_ipv4(line: Seq<char>) -> Option<(u8, u8, u8, u8)> {
    let text = spec_trimmed(line);
    match (
        spec_octet_at(text, 0),
        spec_octet_at(text, 1),
        spec_octet_at(text, 2),
        spec_octet_at(text, 3),
    ) {
        (Some(a), Some(b), Some(c), Some(d)) => Some((a, b, c, d)),
        _ => None,
    }
}

/// Whether `c` is white space.
pub fn white_space(c: char) -> (yes: bool)
    ensures
        yes == is_white_space(c),
{
    let u: u32 = c as u32;
    (0x09 <= u && u <= 0x0d) || u == 0x20 || u == 0x85 || u == 0xa0 || u == 0x1680 || (0x2000
        <= u && u <= 0x200a) || u == 0x2028 || u == 0x2029 || u == 0x202f || u == 0x205f || u
        == 0x3000
}

/// The characters of `line`.
fn chars_of(line: &str) -> (chars: Vec<char>)
    ensures
        chars@ == line@,
{
    let n = line.unicode_len();
    let mut chars: Vec<char> = Vec::new();
    let mut i: usize = 0;
    while i < n
        invariant
            n == line@.len(),
            i <= n,
            chars@ == line@.subrange(0, i as int),
        decreases n - i,
    {
        chars.push(line.get_char(i));
        assert(chars@ =~= line@.subrange(0, i + 1));
        i += 1;
    }
    assert(chars@ =~= line@);
    chars
}

/// Reads the number that `s[from..to]` writes.
fn octet(s: &Vec<char>, from: usize, to: usize) -> (value: Option<u8>)
    requires
        from <= to <= s@.len(),
    ensures
        value == spec_octet(s@.subrange(from as int, to as int)),
{
    let ghost piece = s@.subrange(from as int, to as int);
    let first = if from < to && s[from] == '+' {
        from + 1
    } else {
        from
    };
    let ghost digits = s@.subrange(first as int, to as int);
    assert(digits =~= spec_digits(piece));
    if first == to {
        return None;
    }
    let mut capped: u32 = 0;
    let mut k: usize = first;
    while k < to
        invariant
            first <= k <= to <= s@.len(),
            digits == s@.subrange(first as int, to as int),
            piece == s@.subrange(from as int, to as int),
            digits == spec_digits(piece),
            forall|i: int| first <= i < k ==> is_digit(#[trigger] s@[i]),
            capped <= 256,
            capped == if spec_decimal(s@.subrange(first as int, k as int)) <= 255 {
                spec_decimal(s@.subrange(first as int, k as int))
            } else {
                256
            },
        decreases to - k,
    {
        let c = s[k];
        if !('0' <= c && c <= '9') {
            assert(digits[k - first] == c);
            return None;
        }
        let digit: u32 = c as u32 - '0' as u32;
        proof {
            let longer = s@.subrange(first as int, k + 1);
            assert(longer.drop_last() =~= s@.subrange(first as int, k as int));
            assert(longer.last() == c);
        }
        capped = capped * 10 + digit;
        if capped > 256 {
            capped = 256;
        }
        k += 1;
    }
    assert(s@.subrange(first as int, k as int) =~= digits);
    assert forall|i: int| 0 <= i < digits.len() implies is_digit(#[trigger] digits[i]) by {
        assert(digits[i] == s@[first + i]);
    }
    if capped > 255 {
        None
    } else {
        Some(capped as u8)
    }
}

/// Finds piece number `n` of `s`, one of its first four, and reads the
/// number that it writes.
fn octet_at(s: &Vec<char>, n: usize) -> (value: Option<u8>)
    requires
        n <= 3,
    ensures
        value == spec_octet_at(s@, n as nat),
{
    let mut start: usize = 0;
    let mut i: usize = 0;
    while i < n
        invariant
            i <= n <= 3,
            start <= s@.len(),
            start == piece_start(s@, i as nat),
        decreases n - i,
    {
        let end = piece_stop(s, start);
        if end == s.len() {
            proof {
                lemma_no_piece_after_the_last(s@, i as nat, n as nat);
            }
            return None;
        }
        start = end + 1;
        i += 1;
    }
    let end = piece_stop(s, start);
    octet(s, start, end)
}

/// A text that has no piece number `n + 1` has none with a greater number.
proof fn lemma_no_piece_after_the_last(s: Seq<char>, n: nat, m: nat)
    requires
        n < m,
        piece_start(s, n + 1) > s.len(),
    ensures
        piece_start(s, m) > s.len(),
    decreases m,
{
    if m > n + 1 {
        lemma_no_piece_after_the_last(s, n, (m - 1) as nat);
    }
}

/// Finds the end of the piece that begins at `from`.
fn piece_stop(s: &Vec<char>, from: usize) -> (end: usize)
    requires
        from <= s@.len(),
    ensures
        end == piece_end(s@, from as int),
        from <= end <= s@.len(),
{
    let mut end: usize = from;
    while end < s.len() && s[end] != '.'
        invariant
            from <= end <= s@.len(),
            piece_end(s@, from as int) == piece_end(s@, end as int),
        decreases s@.len() - end,
    {
        end += 1;
    }
    end
}

/// Takes the white space off both ends of `s`.
fn trim_text(s: &Vec<char>) -> (text: Vec<char>)
    ensures
        text@ == spec_trimmed(s@),
{
    let mut start: usize = 0;
    while start < s.len() && white_space(s[start])
        invariant
            start <= s@.len(),
            text_start(s@, 0) == text_start(s@, start as int),
        decreases s@.len() - start,
    {
        start += 1;
    }
    let mut end: usize = s.len();
    while end > 0 && white_space(s[end - 1])
        invariant
            end <= s@.len(),
            text_end(s@, s@.len() as int) == text_end(s@, end as int),
        decreases end,
    {
        end -= 1;
    }
    let mut text: Vec<char> = Vec::new();
    if start >= end {
        return text;
    }
    let mut i: usize = start;
    while i < end
        invariant
            start <= i <= end <= s@.len(),
            text@ == s@.subrange(start as int, i as int),
        decreases end - i,
    {
        text.push(s[i]);
        assert(text@ =~= s@.subrange(start as int, i + 1));
        i += 1;
    }
    text
}

/// Reads the address that a line of input names.
pub fn parse_ipv4(line: &str) -> (address: Option<(u8, u8, u8, u8)>)
    ensures
        address == spec_parse_ipv4(line@),
{
    let chars = chars_of(line);
    let text = trim_text(&chars);
    let a = octet_at(&text, 0);
    let b = octet_at(&text, 1);
    let c = octet_at(&text, 2);
    let d = octet_at(&text, 3);
    match (a, b, c, d) {
        (Some(a), Some(b), Some(c), Some(d)) => Some((a, b, c, d)),
        _ => None,
    }
}

} // verus!
