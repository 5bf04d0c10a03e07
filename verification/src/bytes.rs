//! Byte strings: the vocabulary that the request parser and the path rules
//! share.
//!
//! Requests and paths are handled as bytes, never as text. The few texts that
//! the protocol fixes are ASCII and are written as string literals; `ascii`
//! is the byte string that such a text stands for.

use vstd::prelude::*;
use vstd::slice::*;
use vstd::string::*;

verus! {

/// The bytes of a text made of ASCII characters, one byte per character.
pub open spec fn ascii(text: Seq<char>) -> Seq<u8> {
    Seq::new(text.len(), |i: int| text[i] as u8)
}

/// Whether `b` is ASCII white space: a blank, or one of the five control
/// characters from horizontal tab to carriage return.
pub open spec fn is_space(b: u8) -> bool {
    b == 0x20 || (0x09 <= b && b <= 0x0d)
}

/// `b` with an ASCII capital letter replaced by its small letter.
pub open spec fn lower(b: u8) -> u8 {
    if 0x41 <= b && b <= 0x5a {
        (b + 0x20) as u8
    } else {
        b
    }
}

/// `s` with every ASCII capital letter replaced by its small letter.
pub open spec fn lowercase(s: Seq<u8>) -> Seq<u8> {
    Seq::new(s.len(), |i: int| lower(s[i]))
}

/// The first index at or after `from` that holds no white space; the length
/// of `s` where there is none.
pub open spec fn trim_start(s: Seq<u8>, from: int) -> int
    decreases s.len() - from,
{
    if 0 <= from < s.len() && is_space(s[from]) {
        trim_start(s, from + 1)
    } else {
        from
    }
}

/// The end of the last run of bytes before `to` that is no white space: the
/// least index such that everything from it up to `to` is white space.
pub open spec fn trim_end(s: Seq<u8>, to: int) -> int
    decreases to,
{
    if 0 < to <= s.len() && is_space(s[to - 1]) {
        trim_end(s, to - 1)
    } else {
        to
    }
}

/// `s` without the white space at its two ends.
pub open spec fn trimmed(s: Seq<u8>) -> Seq<u8> {
    let start = trim_start(s, 0);
    let end = trim_end(s, s.len() as int);
    if start < end {
        s.subrange(start, end)
    } else {
        Seq::empty()
    }
}

/// The first index at or after `from` that holds `sep`; the length of `s`
/// where there is none.
pub open spec fn until(s: Seq<u8>, sep: u8, from: int) -> int
    decreases s.len() - from,
{
    if 0 <= from < s.len() && s[from] != sep {
        until(s, sep, from + 1)
    } else {
        from
    }
}

/// The first index at or after `from` that holds a byte other than `sep`; the
/// length of `s` where there is none.
pub open spec fn past(s: Seq<u8>, sep: u8, from: int) -> int
    decreases s.len() - from,
{
    if 0 <= from < s.len() && s[from] == sep {
        past(s, sep, from + 1)
    } else {
        from
    }
}

/// The fields of `s` that begin at or after `from`: its maximal runs of bytes
/// other than `sep`, in the order in which they stand. Separators that follow
/// one another, or that open or close `s`, make no empty field.
pub open spec fn fields_from(s: Seq<u8>, sep: u8, from: int) -> Seq<Seq<u8>>
    decreases s.len() - from,
    via fields_from_terminates
{
    let start = past(s, sep, from);
    if 0 <= from && start < s.len() {
        let end = until(s, sep, start);
        seq![s.subrange(start, end)] + fields_from(s, sep, end)
    } else {
        Seq::empty()
    }
}

#[via_fn]
proof fn fields_from_terminates(s: Seq<u8>, sep: u8, from: int) {
    let start = past(s, sep, from);
    if 0 <= from && start < s.len() {
        lemma_past(s, sep, from);
        lemma_until(s, sep, start);
    }
}

/// All the fields of `s`.
pub open spec fn fields(s: Seq<u8>, sep: u8) -> Seq<Seq<u8>> {
    fields_from(s, sep, 0)
}

/// Field number `n` of `s`, counted from zero, where `s` has that many.
pub open spec fn field(s: Seq<u8>, sep: u8, n: int) -> Option<Seq<u8>> {
    let all = fields(s, sep);
    if 0 <= n < all.len() {
        Some(all[n])
    } else {
        None
    }
}

/// `until` stops at the first separator: nothing before its result is one,
/// and its result is one unless `s` ended first.
pub proof fn lemma_until(s: Seq<u8>, sep: u8, from: int)
    requires
        0 <= from <= s.len(),
    ensures
        from <= until(s, sep, from) <= s.len(),
        forall|k: int| from <= k < until(s, sep, from) ==> s[k] != sep,
        until(s, sep, from) < s.len() ==> s[until(s, sep, from)] == sep,
    decreases s.len() - from,
{
    if from < s.len() && s[from] != sep {
        lemma_until(s, sep, from + 1);
    }
}

/// `past` stops at the first byte that is no separator: everything before
/// its result is one, and its result is none unless `s` ended first.
pub proof fn lemma_past(s: Seq<u8>, sep: u8, from: int)
    requires
        0 <= from <= s.len(),
    ensures
        from <= past(s, sep, from) <= s.len(),
        forall|k: int| from <= k < past(s, sep, from) ==> s[k] == sep,
        past(s, sep, from) < s.len() ==> s[past(s, sep, from)] != sep,
    decreases s.len() - from,
{
    if from < s.len() && s[from] == sep {
        lemma_past(s, sep, from + 1);
    }
}

/// Every field is a run of bytes of `s`: it is not empty and holds no
/// separator.
pub proof fn lemma_fields_are_runs(s: Seq<u8>, sep: u8, from: int)
    requires
        0 <= from <= s.len(),
    ensures
        forall|n: int|
            0 <= n < fields_from(s, sep, from).len() ==> {
                let f = #[trigger] fields_from(s, sep, from)[n];
                &&& f.len() > 0
                &&& forall|k: int| 0 <= k < f.len() ==> f[k] != sep
            },
    decreases s.len() - from,
{
    let start = past(s, sep, from);
    lemma_past(s, sep, from);
    if start < s.len() {
        let end = until(s, sep, start);
        lemma_until(s, sep, start);
        lemma_fields_are_runs(s, sep, end);
        let rest = fields_from(s, sep, end);
        let all = fields_from(s, sep, from);
        assert(all == seq![s.subrange(start, end)] + rest);
        assert forall|n: int| 0 <= n < all.len() implies {
            let f = #[trigger] all[n];
            &&& f.len() > 0
            &&& forall|k: int| 0 <= k < f.len() ==> f[k] != sep
        } by {
            if n > 0 {
                assert(all[n] == rest[n - 1]);
            }
        }
    }
}

/// `trim_start` steps over white space and over nothing else.
pub proof fn lemma_trim_start(s: Seq<u8>, from: int)
    requires
        0 <= from <= s.len(),
    ensures
        from <= trim_start(s, from) <= s.len(),
        forall|k: int| from <= k < trim_start(s, from) ==> is_space(s[k]),
        trim_start(s, from) < s.len() ==> !is_space(s[trim_start(s, from)]),
    decreases s.len() - from,
{
    if from < s.len() && is_space(s[from]) {
        lemma_trim_start(s, from + 1);
    }
}

/// `trim_end` steps back over white space and over nothing else.
pub proof fn lemma_trim_end(s: Seq<u8>, to: int)
    requires
        0 <= to <= s.len(),
    ensures
        0 <= trim_end(s, to) <= to,
        forall|k: int| trim_end(s, to) <= k < to ==> is_space(s[k]),
        trim_end(s, to) > 0 ==> !is_space(s[trim_end(s, to) - 1]),
    decreases to,
{
    if 0 < to && is_space(s[to - 1]) {
        lemma_trim_end(s, to - 1);
    }
}

/// What `trimmed` leaves neither begins nor ends with white space.
pub proof fn lemma_trimmed_has_bare_ends(s: Seq<u8>)
    ensures
        trimmed(s).len() > 0 ==> !is_space(trimmed(s)[0]) && !is_space(trimmed(s).last()),
{
    lemma_trim_start(s, 0);
    lemma_trim_end(s, s.len() as int);
}

/// A byte string that neither begins nor ends with white space is what
/// `trimmed` leaves of it within any white space.
pub proof fn lemma_trimmed_within_space(before: Seq<u8>, inner: Seq<u8>, after: Seq<u8>)
    requires
        forall|k: int| 0 <= k < before.len() ==> is_space(before[k]),
        forall|k: int| 0 <= k < after.len() ==> is_space(after[k]),
        inner.len() > 0,
        !is_space(inner[0]),
        !is_space(inner.last()),
    ensures
        trimmed(before + inner + after) == inner,
{
    let s = before + inner + after;
    let start = before.len() as int;
    let end = start + inner.len();
    assert(s[start] == inner[0]);
    assert(s[end - 1] == inner.last());
    lemma_trim_start_steps_over(s, 0, start);
    lemma_trim_end_steps_over(s, end, s.len() as int);
    assert(s.subrange(start, end) =~= inner);
}

/// `trim_start` steps over a stretch of white space.
proof fn lemma_trim_start_steps_over(s: Seq<u8>, from: int, to: int)
    requires
        0 <= from <= to <= s.len(),
        forall|k: int| from <= k < to ==> is_space(s[k]),
    ensures
        trim_start(s, from) == trim_start(s, to),
    decreases to - from,
{
    if from < to {
        lemma_trim_start_steps_over(s, from + 1, to);
    }
}

/// `trim_end` steps back over a stretch of white space.
proof fn lemma_trim_end_steps_over(s: Seq<u8>, from: int, to: int)
    requires
        0 <= from <= to <= s.len(),
        forall|k: int| from <= k < to ==> is_space(s[k]),
    ensures
        trim_end(s, to) == trim_end(s, from),
    decreases to - from,
{
    if from < to {
        lemma_trim_end_steps_over(s, from, to - 1);
    }
}

/// The bytes of an ASCII text.
pub fn ascii_bytes(text: &str) -> (bytes: &[u8])
    requires
        text.is_ascii(),
    ensures
        bytes@ == ascii(text@),
{
    broadcast use is_ascii_spec_bytes;

    text.as_bytes()
}

/// Whether two byte strings are the same.
pub fn same_bytes(a: &[u8], b: &[u8]) -> (same: bool)
    ensures
        same == (a@ == b@),
{
    if a.len() != b.len() {
        return false;
    }
    let mut i: usize = 0;
    while i < a.len()
        invariant
            a@.len() == b@.len(),
            i <= a@.len(),
            forall|k: int| 0 <= k < i ==> a@[k] == b@[k],
        decreases a@.len() - i,
    {
        if a[i] != b[i] {
            return false;
        }
        i += 1;
    }
    assert(a@ =~= b@);
    true
}

/// A copy of `s[from..to]`.
pub fn copy_of(s: &[u8], from: usize, to: usize) -> (copy: Vec<u8>)
    requires
        from <= to <= s@.len(),
    ensures
        copy@ == s@.subrange(from as int, to as int),
{
    slice_to_vec(slice_subrange(s, from, to))
}

/// `a` followed by `b`.
pub fn append(a: &[u8], b: &[u8]) -> (joined: Vec<u8>)
    ensures
        joined@ == a@ + b@,
{
    let mut joined = slice_to_vec(a);
    joined.extend_from_slice(b);
    joined
}

/// Replaces every ASCII capital letter of `s` by its small letter.
pub fn to_lowercase(s: &[u8]) -> (folded: Vec<u8>)
    ensures
        folded@ == lowercase(s@),
{
    let mut folded: Vec<u8> = Vec::new();
    let mut i: usize = 0;
    while i < s.len()
        invariant
            i <= s@.len(),
            folded@.len() == i,
            forall|k: int| 0 <= k < i ==> folded@[k] == lower(s@[k]),
        decreases s@.len() - i,
    {
        let b = s[i];
        if 0x41 <= b && b <= 0x5a {
            folded.push(b + 0x20);
        } else {
            folded.push(b);
        }
        i += 1;
    }
    assert(folded@ =~= lowercase(s@));
    folded
}

/// Takes the white space off both ends of `s`.
pub fn trim(s: &[u8]) -> (inner: &[u8])
    ensures
        inner@ == trimmed(s@),
{
    let mut start: usize = 0;
    while start < s.len() && space(s[start])
        invariant
            start <= s@.len(),
            trim_start(s@, 0) == trim_start(s@, start as int),
        decreases s@.len() - start,
    {
        start += 1;
    }
    let mut end: usize = s.len();
    while end > 0 && space(s[end - 1])
        invariant
            end <= s@.len(),
            trim_end(s@, s@.len() as int) == trim_end(s@, end as int),
        decreases end,
    {
        end -= 1;
    }
    if start < end {
        slice_subrange(s, start, end)
    } else {
        let empty = slice_subrange(s, 0, 0);
        assert(empty@ =~= Seq::<u8>::empty());
        empty
    }
}

/// Whether `b` is ASCII white space.
pub fn space(b: u8) -> (yes: bool)
    ensures
        yes == is_space(b),
{
    b == 0x20 || (0x09 <= b && b <= 0x0d)
}

/// Finds the next field of `s` at or after `from`: the index at which it
/// begins and the index at which it ends. Where no field is left, both are
/// the length of `s`.
pub fn next_field(s: &[u8], sep: u8, from: usize) -> (bounds: (usize, usize))
    requires
        from <= s@.len(),
    ensures
        bounds.0 == past(s@, sep, from as int),
        bounds.1 == until(s@, sep, bounds.0 as int),
        from <= bounds.0 <= bounds.1 <= s@.len(),
{
    let mut start: usize = from;
    while start < s.len() && s[start] == sep
        invariant
            from <= start <= s@.len(),
            past(s@, sep, from as int) == past(s@, sep, start as int),
        decreases s@.len() - start,
    {
        start += 1;
    }
    let mut end: usize = start;
    while end < s.len() && s[end] != sep
        invariant
            start <= end <= s@.len(),
            until(s@, sep, start as int) == until(s@, sep, end as int),
        decreases s@.len() - end,
    {
        end += 1;
    }
    (start, end)
}

} // verus!
