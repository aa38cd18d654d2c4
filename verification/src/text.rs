//! Byte-level text helpers shared by the matchers.
//!
//! Everything that arrives on the wire (path segments, header names and
//! values, bodies) is handled as bytes; the functions here state what they
//! compute over `Seq<u8>`.

use vstd::prelude::*;
use vstd::slice::slice_to_vec;
use vstd::string::*;

verus! {

/// The byte `/`, which separates path segments.
pub const SLASH: u8 = 0x2f;

/// The lower-case form of an ASCII letter; every other byte is unchanged.
pub open spec fn lower(b: u8) -> u8 {
    if 0x41 <= b && b <= 0x5a {
        (b + 0x20) as u8
    } else {
        b
    }
}

/// Equality of two byte strings when ASCII letters are compared without case.
pub open spec fn same_ignoring_case(a: Seq<u8>, b: Seq<u8>) -> bool {
    &&& a.len() == b.len()
    &&& forall|i: int| 0 <= i < a.len() ==> lower(#[trigger] a[i]) == lower(b[i])
}

/// `needle` occurs in `hay` starting at position `at`.
pub open spec fn occurs_at(hay: Seq<u8>, needle: Seq<u8>, at: int) -> bool {
    &&& 0 <= at
    &&& at + needle.len() <= hay.len()
    &&& hay.subrange(at, at + needle.len()) == needle
}

/// `needle` occurs somewhere in `hay`.
pub open spec fn contains(hay: Seq<u8>, needle: Seq<u8>) -> bool {
    exists|at: int| occurs_at(hay, needle, at)
}

/// Every byte is an ASCII decimal digit.
pub open spec fn all_digits(s: Seq<u8>) -> bool {
    forall|i: int| 0 <= i < s.len() ==> 0x30 <= #[trigger] s[i] <= 0x39
}

/// The number that a string of decimal digits writes.
pub open spec fn digits_value(s: Seq<u8>) -> nat
    decreases s.len(),
{
    if s.len() == 0 {
        0
    } else {
        (digits_value(s.drop_last()) * 10 + (s.last() - 0x30)) as nat
    }
}

/// The digits of a decimal number once one leading `+`, if any, is taken off.
pub open spec fn unsigned_digits(s: Seq<u8>) -> Seq<u8> {
    if s.len() > 0 && s[0] == 0x2b {
        s.skip(1)
    } else {
        s
    }
}

/// The unsigned decimal number that `s` writes, if it writes one no greater
/// than `max`: an optional `+`, then at least one digit, nothing else.
pub open spec fn decimal(s: Seq<u8>, max: nat) -> Option<nat> {
    let digits = unsigned_digits(s);
    if digits.len() > 0 && all_digits(digits) && digits_value(digits) <= max {
        Some(digits_value(digits))
    } else {
        None
    }
}

/// The pieces of `s` between its `/` separators; never empty, and a piece
/// may be empty.
pub open spec fn pieces(s: Seq<u8>) -> Seq<Seq<u8>>
    decreases s.len(),
{
    if s.len() == 0 {
        seq![Seq::<u8>::empty()]
    } else {
        let before = pieces(s.drop_last());
        if s.last() == SLASH {
            before.push(Seq::<u8>::empty())
        } else {
            before.drop_last().push(before.last().push(s.last()))
        }
    }
}

/// The segments of a request path: the pieces of the path after its leading
/// `/`, without the empty piece that a trailing `/` leaves.
pub open spec fn path_segments(path: Seq<u8>) -> Seq<Seq<u8>> {
    let rest = if path.len() > 0 && path[0] == SLASH {
        path.skip(1)
    } else {
        path
    };
    let all = pieces(rest);
    if all.last().len() == 0 {
        all.drop_last()
    } else {
        all
    }
}

/// The byte strings that a vector of byte vectors holds.
pub open spec fn rows(v: Seq<Vec<u8>>) -> Seq<Seq<u8>> {
    Seq::new(v.len(), |i: int| v[i]@)
}

/// All rows joined end to end.
pub open spec fn joined(rows: Seq<Seq<u8>>) -> Seq<u8>
    decreases rows.len(),
{
    if rows.len() == 0 {
        Seq::<u8>::empty()
    } else {
        joined(rows.drop_last()) + rows.last()
    }
}

/// `pieces` always yields at least one piece.
pub proof fn lemma_pieces_nonempty(s: Seq<u8>)
    ensures
        pieces(s).len() >= 1,
    decreases s.len(),
{
    if s.len() > 0 {
        lemma_pieces_nonempty(s.drop_last());
    }
}

/// No piece holds a separator.
pub proof fn law_pieces_hold_no_slash(s: Seq<u8>)
    ensures
        forall|i: int, j: int|
            0 <= i < pieces(s).len() && 0 <= j < pieces(s)[i].len() ==> pieces(s)[i][j] != SLASH,
    decreases s.len(),
{
    if s.len() > 0 {
        lemma_pieces_nonempty(s.drop_last());
        law_pieces_hold_no_slash(s.drop_last());
    }
}

/// The pieces written one after the other with a `/` between each two.
pub open spec fn rejoined(parts: Seq<Seq<u8>>) -> Seq<u8>
    decreases parts.len(),
{
    if parts.len() == 0 {
        Seq::<u8>::empty()
    } else if parts.len() == 1 {
        parts[0]
    } else {
        rejoined(parts.drop_last()).push(SLASH) + parts.last()
    }
}

/// Splitting loses nothing: the pieces of a string, written with a `/`
/// between each two, are the string.
pub proof fn law_pieces_rejoin(s: Seq<u8>)
    ensures
        rejoined(pieces(s)) == s,
    decreases s.len(),
{
    if s.len() == 0 {
        assert(rejoined(pieces(s)) =~= s);
    } else {
        let before = pieces(s.drop_last());
        lemma_pieces_nonempty(s.drop_last());
        law_pieces_rejoin(s.drop_last());
        if s.last() == SLASH {
            let all = before.push(Seq::<u8>::empty());
            assert(all.drop_last() =~= before);
            assert(rejoined(all) =~= s);
        } else {
            let all = before.drop_last().push(before.last().push(s.last()));
            assert(all.drop_last() =~= before.drop_last());
            if before.len() == 1 {
                assert(rejoined(all) =~= s);
            } else {
                assert(rejoined(all) =~= rejoined(before).push(s.last()));
                assert(rejoined(all) =~= s);
            }
        }
    }
}

/// A string of digits writes a number no smaller than any of its prefixes do.
pub proof fn lemma_digits_prefix(s: Seq<u8>, n: int)
    requires
        0 <= n <= s.len(),
        all_digits(s),
    ensures
        digits_value(s.take(n)) <= digits_value(s),
    decreases s.len() - n,
{
    if n == s.len() {
        assert(s.take(n) =~= s);
    } else {
        lemma_digits_prefix(s, n + 1);
        assert(s.take(n + 1).drop_last() =~= s.take(n));
    }
}

/// Lower-cases one byte.
pub fn to_lower(b: u8) -> (r: u8)
    ensures
        r == lower(b),
{
    if 0x41 <= b && b <= 0x5a {
        b + 0x20
    } else {
        b
    }
}

/// The bytes of a string.
pub fn bytes_of(s: &str) -> (r: Vec<u8>)
    ensures
        r@ == s.spec_bytes(),
{
    slice_to_vec(s.as_bytes())
}

/// A copy of a byte vector.
pub fn copy_bytes(v: &Vec<u8>) -> (r: Vec<u8>)
    ensures
        r@ == v@,
{
    slice_to_vec(v.as_slice())
}

/// Whether two byte strings are equal.
pub fn same_bytes(a: &Vec<u8>, b: &Vec<u8>) -> (r: bool)
    ensures
        r == (a@ == b@),
{
    if a.len() != b.len() {
        return false;
    }
    let mut i: usize = 0;
    while i < a.len()
        invariant
            i <= a.len(),
            a.len() == b.len(),
            forall|k: int| 0 <= k < i ==> a@[k] == b@[k],
        decreases a.len() - i,
    {
        if a[i] != b[i] {
            return false;
        }
        i += 1;
    }
    assert(a@ =~= b@);
    true
}

/// Whether two byte strings are equal when ASCII case is ignored.
pub fn eq_ignore_case(a: &Vec<u8>, b: &Vec<u8>) -> (r: bool)
    ensures
        r == same_ignoring_case(a@, b@),
{
    if a.len() != b.len() {
        return false;
    }
    let mut i: usize = 0;
    while i < a.len()
        invariant
            i <= a.len(),
            a.len() == b.len(),
            forall|k: int| 0 <= k < i ==> lower(#[trigger] a@[k]) == lower(b@[k]),
        decreases a.len() - i,
    {
        if to_lower(a[i]) != to_lower(b[i]) {
            return false;
        }
        i += 1;
    }
    true
}

/// Whether `needle` occurs in `hay` at position `at`.
fn matches_at(hay: &Vec<u8>, needle: &Vec<u8>, at: usize) -> (r: bool)
    requires
        at + needle.len() <= hay.len(),
    ensures
        r == occurs_at(hay@, needle@, at as int),
{
    let mut j: usize = 0;
    while j < needle.len()
        invariant
            j <= needle.len(),
            at + needle.len() <= hay.len(),
            forall|k: int| 0 <= k < j ==> hay@[at + k] == needle@[k],
        decreases needle.len() - j,
    {
        if hay[at + j] != needle[j] {
            assert(hay@.subrange(at as int, at + needle.len())[j as int] == hay@[at + j]);
            return false;
        }
        j += 1;
    }
    assert(hay@.subrange(at as int, at + needle.len()) =~= needle@);
    true
}

/// Whether `needle` occurs somewhere in `hay`. The empty string occurs in
/// every string.
pub fn find(hay: &Vec<u8>, needle: &Vec<u8>) -> (r: bool)
    ensures
        r == contains(hay@, needle@),
{
    if needle.len() > hay.len() {
        return false;
    }
    let last: usize = hay.len() - needle.len();
    let mut at: usize = 0;
    while at < last
        invariant
            at <= last,
            last == hay.len() - needle.len(),
            needle.len() <= hay.len(),
            forall|k: int| 0 <= k < at ==> !occurs_at(hay@, needle@, k),
        decreases last - at,
    {
        if matches_at(hay, needle, at) {
            return true;
        }
        at += 1;
    }
    matches_at(hay, needle, last)
}

/// Reads an unsigned decimal number no greater than `max`.
pub fn parse_decimal(s: &Vec<u8>, max: u64) -> (r: Option<u64>)
    ensures
        r matches Some(n) ==> decimal(s@, max as nat) == Some(n as nat),
        r is None ==> decimal(s@, max as nat) is None,
{
    let start: usize = if s.len() > 0 && s[0] == 0x2b {
        1
    } else {
        0
    };
    if start == s.len() {
        return None;
    }
    let ghost digits = unsigned_digits(s@);
    assert(digits =~= s@.skip(start as int));
    let mut acc: u64 = 0;
    let mut i: usize = start;
    assert(digits.take(0) =~= Seq::<u8>::empty());
    while i < s.len()
        invariant
            start <= i <= s.len(),
            digits == s@.skip(start as int),
            digits == unsigned_digits(s@),
            all_digits(digits.take(i - start)),
            acc as nat == digits_value(digits.take(i - start)),
            acc <= max,
        decreases s.len() - i,
    {
        let b = s[i];
        let ghost next = digits.take(i - start + 1);
        assert(next.drop_last() =~= digits.take(i - start));
        assert(next.last() == b);
        if b < 0x30 || b > 0x39 {
            assert(digits[i - start] == b);
            assert(!all_digits(digits));
            return None;
        }
        let wide: u128 = (acc as u128) * 10 + ((b - 0x30) as u128);
        if wide > max as u128 {
            proof {
                if all_digits(digits) {
                    lemma_digits_prefix(digits, i - start + 1);
                }
            }
            return None;
        }
        acc = wide as u64;
        i += 1;
    }
    assert(digits.take(i - start) =~= digits);
    Some(acc)
}

/// Splits a request path into its segments.
pub fn split_path(path: &Vec<u8>) -> (r: Vec<Vec<u8>>)
    ensures
        rows(r@) == path_segments(path@),
{
    let start: usize = if path.len() > 0 && path[0] == SLASH {
        1
    } else {
        0
    };
    let ghost rest = path@.skip(start as int);
    assert(path@.skip(0) =~= path@);
    let mut done: Vec<Vec<u8>> = Vec::new();
    let mut current: Vec<u8> = Vec::new();
    let mut i: usize = start;
    assert(rest.take(0) =~= Seq::<u8>::empty());
    assert(rows(done@).push(current@) =~= pieces(rest.take(0)));
    while i < path.len()
        invariant
            start <= i <= path.len(),
            rest == path@.skip(start as int),
            rows(done@).push(current@) == pieces(rest.take(i - start)),
        decreases path.len() - i,
    {
        let b = path[i];
        let ghost before = pieces(rest.take(i - start));
        let ghost upto = rest.take(i - start + 1);
        assert(upto.drop_last() =~= rest.take(i - start));
        assert(upto.last() == b);
        assert(before.last() == current@);
        assert(before.drop_last() =~= rows(done@));
        if b == SLASH {
            done.push(current);
            current = Vec::new();
            assert(rows(done@) =~= before);
        } else {
            current.push(b);
        }
        assert(rows(done@).push(current@) =~= pieces(upto));
        i += 1;
    }
    assert(rest.take(i - start) =~= rest);
    let ghost all = pieces(rest);
    assert(all.last() == current@);
    assert(all.drop_last() =~= rows(done@));
    if current.len() > 0 {
        done.push(current);
        assert(rows(done@) =~= all);
    }
    done
}

} // verus!
