//! The capabilities that the combinators need from their input, for byte
//! slices: splitting, counting, comparing, searching and scanning.
//!
//! Every sub-slice handed back borrows from the input; nothing is copied.
use vstd::prelude::*;
use crate::error::{ErrorKind, ParseError};
use crate::internal::{ErrMode, IResult};

verus! {

/// The result of comparing the start of an input with a literal.
#[derive(Debug, Clone, Copy, PartialEq, Eq, Structural)]
pub enum CompareResult {
    /// The input begins with the literal.
    Match,
    /// The input is a proper prefix of the literal: more data could match.
    Incomplete,
    /// The input and the literal differ within their common length.
    Mismatch,
}

/// `t` is a prefix of `s`.
pub open spec fn is_prefix(t: Seq<u8>, s: Seq<u8>) -> bool {
    t.len() <= s.len() && s.take(t.len() as int) == t
}

/// `s` and `t` differ at some index that both have.
pub open spec fn differs_within(s: Seq<u8>, t: Seq<u8>) -> bool {
    exists|k: int| 0 <= k < s.len() && k < t.len() && s[k] != t[k]
}

/// What comparing input `s` with literal `t` yields.
pub open spec fn compare_spec(s: Seq<u8>, t: Seq<u8>) -> CompareResult {
    if differs_within(s, t) {
        CompareResult::Mismatch
    } else if s.len() >= t.len() {
        CompareResult::Match
    } else {
        CompareResult::Incomplete
    }
}

/// ASCII lower case of one byte; other bytes are left as they are.
pub open spec fn lower(c: u8) -> u8 {
    if 65 <= c <= 90 {
        (c + 32) as u8
    } else {
        c
    }
}

/// ASCII lower case of every byte.
pub open spec fn fold(s: Seq<u8>) -> Seq<u8> {
    s.map_values(|c: u8| lower(c))
}

/// `t` occurs in `s` at offset `k`.
pub open spec fn occurs_at(s: Seq<u8>, t: Seq<u8>, k: int) -> bool {
    0 <= k && k + t.len() <= s.len() && s.subrange(k, k + t.len()) == t
}

/// `k` is the offset of the first occurrence of `t` in `s`.
pub open spec fn is_first_occurrence(s: Seq<u8>, t: Seq<u8>, k: int) -> bool {
    occurs_at(s, t, k) && forall|j: int| 0 <= j < k ==> !occurs_at(s, t, j)
}

/// `n` is where a scan of `s` with `pred` stops: `pred` is false before `n`,
/// and `n` is the end of `s` or an element on which `pred` is true.
pub open spec fn stops_at<F: Fn(u8) -> bool>(pred: F, s: Seq<u8>, n: int) -> bool {
    &&& 0 <= n <= s.len()
    &&& forall|k: int| 0 <= k < n ==> pred.ensures((s[k],), false)
    &&& n < s.len() ==> pred.ensures((s[n],), true)
}

/// `r` succeeds, with the first `n` elements of `s` matched and the rest remaining.
pub open spec fn splits<E>(s: Seq<u8>, n: int, r: IResult<&[u8], &[u8], E>) -> bool {
    match r {
        Ok((rest, matched)) => 0 <= n <= s.len() && matched@ == s.take(n) && rest@ == s.skip(n),
        Err(_) => false,
    }
}

/// `r` is a recoverable error of `kind` at input `i`.
pub open spec fn fails_with<'a, E: ParseError<&'a [u8]>>(
    i: &'a [u8],
    kind: ErrorKind,
    r: IResult<&'a [u8], &'a [u8], E>,
) -> bool {
    match r {
        Err(ErrMode::Error(e)) => E::is_from_error_kind(i, kind, e),
        _ => false,
    }
}

/// A parser that needs a non-empty run of length `n`: it matches the run,
/// or fails with `kind` when the run is empty.
pub open spec fn nonempty_run<'a, E: ParseError<&'a [u8]>>(
    i: &'a [u8],
    n: int,
    kind: ErrorKind,
    r: IResult<&'a [u8], &'a [u8], E>,
) -> bool {
    if n == 0 {
        fails_with(i, kind, r)
    } else {
        splits(i@, n, r)
    }
}

/// Splits `i` after `count` elements: `(remaining, consumed)`.
pub fn take_split<'a>(i: &'a [u8], count: usize) -> (r: (&'a [u8], &'a [u8]))
    requires
        count <= i@.len(),
    ensures
        r.1@ == i@.take(count as int),
        r.0@ == i@.skip(count as int),
{
    let (prefix, suffix) = i.split_at(count);
    (suffix, prefix)
}

/// The offset of the `count`-th element, if `i` has that many.
pub fn slice_index(i: &[u8], count: usize) -> (r: Option<usize>)
    ensures
        r == (if count <= i@.len() {
            Some(count)
        } else {
            None::<usize>
        }),
{
    if count <= i.len() {
        Some(count)
    } else {
        None
    }
}

/// Compares the start of `i` with the literal `t`.
pub fn compare(i: &[u8], t: &[u8]) -> (r: CompareResult)
    ensures
        r == compare_spec(i@, t@),
        r == CompareResult::Match <==> is_prefix(t@, i@),
{
    let mut k: usize = 0;
    while k < i.len() && k < t.len()
        invariant
            k <= i@.len(),
            k <= t@.len(),
            forall|j: int| 0 <= j < k ==> i@[j] == t@[j],
        decreases i@.len() - k,
    {
        if i[k] != t[k] {
            return CompareResult::Mismatch;
        }
        k = k + 1;
    }
    if i.len() >= t.len() {
        assert(i@.take(t@.len() as int) =~= t@);
        CompareResult::Match
    } else {
        CompareResult::Incomplete
    }
}

/// ASCII lower case of one byte.
pub fn lowercase_byte(c: u8) -> (r: u8)
    ensures
        r == lower(c),
{
    if 65 <= c && c <= 90 {
        c + 32
    } else {
        c
    }
}

/// Compares the start of `i` with the literal `t`, ignoring ASCII case.
pub fn compare_no_case(i: &[u8], t: &[u8]) -> (r: CompareResult)
    ensures
        r == compare_spec(fold(i@), fold(t@)),
        r == CompareResult::Match <==> is_prefix(fold(t@), fold(i@)),
{
    let mut k: usize = 0;
    while k < i.len() && k < t.len()
        invariant
            k <= i@.len(),
            k <= t@.len(),
            forall|j: int| 0 <= j < k ==> lower(i@[j]) == lower(t@[j]),
        decreases i@.len() - k,
    {
        if lowercase_byte(i[k]) != lowercase_byte(t[k]) {
            assert(fold(i@)[k as int] != fold(t@)[k as int]);
            return CompareResult::Mismatch;
        }
        k = k + 1;
    }
    assert(!differs_within(fold(i@), fold(t@)));
    if i.len() >= t.len() {
        assert(fold(i@).take(t@.len() as int) =~= fold(t@));
        CompareResult::Match
    } else {
        CompareResult::Incomplete
    }
}

/// Whether `t` occurs in `s` at offset `k`.
fn occurs_at_exec(s: &[u8], t: &[u8], k: usize) -> (r: bool)
    requires
        k + t@.len() <= s@.len(),
    ensures
        r == occurs_at(s@, t@, k as int),
{
    let len = s.len();
    let mut j: usize = 0;
    while j < t.len()
        invariant
            len == s@.len(),
            k + t@.len() <= s@.len(),
            j <= t@.len(),
            forall|x: int| 0 <= x < j ==> s@[k + x] == t@[x],
        decreases t@.len() - j,
    {
        if s[k + j] != t[j] {
            assert(s@.subrange(k as int, k + t@.len())[j as int] != t@[j as int]);
            return false;
        }
        j = j + 1;
    }
    assert(s@.subrange(k as int, k + t@.len()) =~= t@);
    true
}

/// The offset of the first occurrence of `needle` in `i`, if any.
pub fn find_substring(i: &[u8], needle: &[u8]) -> (r: Option<usize>)
    ensures
        match r {
            Some(k) => is_first_occurrence(i@, needle@, k as int),
            None => forall|k: int| !occurs_at(i@, needle@, k),
        },
{
    if needle.len() > i.len() {
        return None;
    }
    let last = i.len() - needle.len();
    let mut k: usize = 0;
    loop
        invariant
            last + needle@.len() == i@.len(),
            k <= last,
            forall|j: int| 0 <= j < k ==> !occurs_at(i@, needle@, j),
        decreases last - k,
    {
        if occurs_at_exec(i, needle, k) {
            return Some(k);
        }
        if k == last {
            assert forall|j: int| !occurs_at(i@, needle@, j) by {
                if 0 <= j && j > k {
                    assert(j + needle@.len() > i@.len());
                }
            }
            return None;
        }
        k = k + 1;
    }
}

/// Whether the set `set` holds `c`.
pub fn find_token(set: &[u8], c: u8) -> (r: bool)
    ensures
        r == set@.contains(c),
{
    let mut k: usize = 0;
    while k < set.len()
        invariant
            k <= set@.len(),
            forall|j: int| 0 <= j < k ==> set@[j] != c,
        decreases set@.len() - k,
    {
        if set[k] == c {
            return true;
        }
        k = k + 1;
    }
    false
}

/// The offset of the first element on which `pred` holds, if any.
pub fn position<F: Fn(u8) -> bool>(i: &[u8], pred: &F) -> (r: Option<usize>)
    requires
        forall|c: u8| pred.requires((c,)),
    ensures
        match r {
            Some(n) => n < i@.len() && stops_at(*pred, i@, n as int),
            None => stops_at(*pred, i@, i@.len() as int),
        },
{
    let mut k: usize = 0;
    while k < i.len()
        invariant
            k <= i@.len(),
            forall|c: u8| pred.requires((c,)),
            forall|j: int| 0 <= j < k ==> pred.ensures((i@[j],), false),
        decreases i@.len() - k,
    {
        if pred(i[k]) {
            return Some(k);
        }
        k = k + 1;
    }
    None
}

/// Splits `i` where `pred` first holds; all of `i` matches if it never
/// holds. Never fails.
pub fn split_at_position_complete<'a, F: Fn(u8) -> bool, E: ParseError<&'a [u8]>>(
    i: &'a [u8],
    pred: &F,
) -> (r: IResult<&'a [u8], &'a [u8], E>)
    requires
        forall|c: u8| pred.requires((c,)),
    ensures
        exists|n: int| stops_at(*pred, i@, n) && splits(i@, n, r),
{
    let n = match position(i, pred) {
        Some(n) => n,
        None => i.len(),
    };
    Ok(take_split(i, n))
}

/// As `split_at_position_complete`, but an empty match is an error of `kind`.
pub fn split_at_position1_complete<'a, F: Fn(u8) -> bool, E: ParseError<&'a [u8]>>(
    i: &'a [u8],
    pred: &F,
    kind: ErrorKind,
) -> (r: IResult<&'a [u8], &'a [u8], E>)
    requires
        forall|c: u8| pred.requires((c,)),
    ensures
        exists|n: int| stops_at(*pred, i@, n) && nonempty_run(i, n, kind, r),
{
    let n = match position(i, pred) {
        Some(n) => n,
        None => i.len(),
    };
    if n == 0 {
        Err(ErrMode::Error(E::from_error_kind(i, kind)))
    } else {
        Ok(take_split(i, n))
    }
}

} // verus!
