//! Primitive parsers over byte slices, complete-input version: reaching the
//! end of the input while scanning is a definitive result, never a request
//! for more data.
//!
//! Each parser returns `Ok((remaining, matched))`, both borrowed from the
//! input, or a recoverable `ErrMode::Error` built at the input's start.
use vstd::prelude::*;
use crate::error::{ErrorKind, ParseError};
use crate::internal::{ErrMode, IResult};
use crate::traits::{
    compare, compare_no_case, find_substring, find_token, fold, is_first_occurrence, is_prefix,
    occurs_at, position, slice_index, split_at_position1_complete, split_at_position_complete,
    stops_at, take_split, fails_with, splits, nonempty_run, CompareResult,
};

verus! {

/// `n` ends the longest prefix of `s` on whose elements `cond` holds.
pub open spec fn while_run<F: Fn(u8) -> bool>(cond: F, s: Seq<u8>, n: int) -> bool {
    &&& 0 <= n <= s.len()
    &&& forall|k: int| 0 <= k < n ==> cond.ensures((s[k],), true)
    &&& n < s.len() ==> cond.ensures((s[n],), false)
}

/// `n` ends the longest prefix of `s` whose elements are in `set` exactly
/// when `inside` holds.
pub open spec fn set_run(set: Seq<u8>, s: Seq<u8>, n: int, inside: bool) -> bool {
    &&& 0 <= n <= s.len()
    &&& forall|k: int| 0 <= k < n ==> set.contains(s[k]) == inside
    &&& n < s.len() ==> set.contains(s[n]) != inside
}

/// The outcome of `tag(t, i)`.
pub open spec fn tag_outcome<'a, E: ParseError<&'a [u8]>>(
    t: Seq<u8>,
    i: &'a [u8],
    r: IResult<&'a [u8], &'a [u8], E>,
) -> bool {
    if is_prefix(t, i@) {
        splits(i@, t.len() as int, r)
    } else {
        fails_with(i, ErrorKind::Tag, r)
    }
}

/// The outcome of `tag_no_case(t, i)`.
pub open spec fn tag_no_case_outcome<'a, E: ParseError<&'a [u8]>>(
    t: Seq<u8>,
    i: &'a [u8],
    r: IResult<&'a [u8], &'a [u8], E>,
) -> bool {
    if is_prefix(fold(t), fold(i@)) {
        splits(i@, t.len() as int, r)
    } else {
        fails_with(i, ErrorKind::Tag, r)
    }
}

/// The outcome of `take_while_m_n(m, n, cond, i)` when the run of `cond`
/// ends at `run`.
pub open spec fn m_n_outcome<'a, E: ParseError<&'a [u8]>>(
    m: int,
    n: int,
    run: int,
    i: &'a [u8],
    r: IResult<&'a [u8], &'a [u8], E>,
) -> bool {
    if run < m {
        fails_with(i, ErrorKind::TakeWhileMN, r)
    } else if run <= n {
        splits(i@, run, r)
    } else {
        splits(i@, n, r)
    }
}

/// The outcome of `take(count, i)`.
pub open spec fn take_outcome<'a, E: ParseError<&'a [u8]>>(
    count: int,
    i: &'a [u8],
    r: IResult<&'a [u8], &'a [u8], E>,
) -> bool {
    if count <= i@.len() {
        splits(i@, count, r)
    } else {
        fails_with(i, ErrorKind::Eof, r)
    }
}

/// The outcome of `take_until(t, i)`.
pub open spec fn take_until_outcome<'a, E: ParseError<&'a [u8]>>(
    t: Seq<u8>,
    i: &'a [u8],
    r: IResult<&'a [u8], &'a [u8], E>,
) -> bool {
    if exists|k: int| occurs_at(i@, t, k) {
        exists|k: int| is_first_occurrence(i@, t, k) && splits(i@, k, r)
    } else {
        fails_with(i, ErrorKind::TakeUntil, r)
    }
}

/// Recognizes the literal `lit` at the start of `i`.
pub fn tag<'a, E: ParseError<&'a [u8]>>(lit: &[u8], i: &'a [u8]) -> (r: IResult<&'a [u8], &'a [u8], E>)
    ensures
        tag_outcome(lit@, i, r),
{
    let lit_len = lit.len();
    match compare(i, lit) {
        CompareResult::Match => Ok(take_split(i, lit_len)),
        _ => Err(ErrMode::Error(E::from_error_kind(i, ErrorKind::Tag))),
    }
}

/// Recognizes the literal `lit` at the start of `i`, ignoring ASCII case.
pub fn tag_no_case<'a, E: ParseError<&'a [u8]>>(lit: &[u8], i: &'a [u8]) -> (r: IResult<
    &'a [u8],
    &'a [u8],
    E,
>)
    ensures
        tag_no_case_outcome(lit@, i, r),
{
    let lit_len = lit.len();
    match compare_no_case(i, lit) {
        CompareResult::Match => {
            assert(fold(lit@).len() == lit@.len());
            Ok(take_split(i, lit_len))
        },
        _ => Err(ErrMode::Error(E::from_error_kind(i, ErrorKind::Tag))),
    }
}

/// The longest non-empty prefix of `i` with no element in `set`.
pub fn is_not<'a, E: ParseError<&'a [u8]>>(set: &[u8], i: &'a [u8]) -> (r: IResult<
    &'a [u8],
    &'a [u8],
    E,
>)
    ensures
        exists|n: int| set_run(set@, i@, n, false) && nonempty_run(i, n, ErrorKind::IsNot, r),
{
    let in_set = |c: u8| -> (b: bool)
        ensures
            b == set@.contains(c),
        { find_token(set, c) };
    let r = split_at_position1_complete(i, &in_set, ErrorKind::IsNot);
    let ghost n = choose|n: int| stops_at(in_set, i@, n) && nonempty_run(i, n, ErrorKind::IsNot, r);
    assert(set_run(set@, i@, n, false));
    r
}

/// The longest non-empty prefix of `i` with every element in `set`.
pub fn is_a<'a, E: ParseError<&'a [u8]>>(set: &[u8], i: &'a [u8]) -> (r: IResult<
    &'a [u8],
    &'a [u8],
    E,
>)
    ensures
        exists|n: int| set_run(set@, i@, n, true) && nonempty_run(i, n, ErrorKind::IsA, r),
{
    let not_in_set = |c: u8| -> (b: bool)
        ensures
            b == !set@.contains(c),
        { !find_token(set, c) };
    let r = split_at_position1_complete(i, &not_in_set, ErrorKind::IsA);
    let ghost n = choose|n: int| stops_at(not_in_set, i@, n) && nonempty_run(i, n, ErrorKind::IsA, r);
    assert(set_run(set@, i@, n, true));
    r
}

/// The longest prefix of `i` on whose elements `cond` holds; never fails.
pub fn take_while<'a, F: Fn(u8) -> bool, E: ParseError<&'a [u8]>>(cond: F, i: &'a [u8]) -> (r:
    IResult<&'a [u8], &'a [u8], E>)
    requires
        forall|c: u8| cond.requires((c,)),
    ensures
        exists|n: int| while_run(cond, i@, n) && splits(i@, n, r),
{
    let p = &cond;
    let stop = |c: u8| -> (b: bool)
        requires
            p.requires((c,)),
        ensures
            p.ensures((c,), !b),
        { !p(c) };
    let r = split_at_position_complete(i, &stop);
    let ghost n = choose|n: int| stops_at(stop, i@, n) && splits(i@, n, r);
    assert(while_run(cond, i@, n));
    r
}

/// The longest non-empty prefix of `i` on whose elements `cond` holds.
pub fn take_while1<'a, F: Fn(u8) -> bool, E: ParseError<&'a [u8]>>(cond: F, i: &'a [u8]) -> (r:
    IResult<&'a [u8], &'a [u8], E>)
    requires
        forall|c: u8| cond.requires((c,)),
    ensures
        exists|n: int| while_run(cond, i@, n) && nonempty_run(i, n, ErrorKind::TakeWhile1, r),
{
    let p = &cond;
    let stop = |c: u8| -> (b: bool)
        requires
            p.requires((c,)),
        ensures
            p.ensures((c,), !b),
        { !p(c) };
    let r = split_at_position1_complete(i, &stop, ErrorKind::TakeWhile1);
    let ghost n = choose|n: int| stops_at(stop, i@, n) && nonempty_run(i, n, ErrorKind::TakeWhile1, r);
    assert(while_run(cond, i@, n));
    r
}

/// The prefix of `i` on whose elements `cond` holds, at least `m` and at
/// most `n` long: as long as possible up to `n`, and an error when fewer
/// than `m` elements qualify.
pub fn take_while_m_n<'a, F: Fn(u8) -> bool, E: ParseError<&'a [u8]>>(
    m: usize,
    n: usize,
    cond: F,
    i: &'a [u8],
) -> (r: IResult<&'a [u8], &'a [u8], E>)
    requires
        m <= n,
        forall|c: u8| cond.requires((c,)),
    ensures
        exists|run: int| while_run(cond, i@, run) && m_n_outcome(m as int, n as int, run, i, r),
{
    let input = i;
    let p = &cond;
    let stop = |c: u8| -> (b: bool)
        requires
            p.requires((c,)),
        ensures
            p.ensures((c,), !b),
        { !p(c) };
    match position(input, &stop) {
        Some(idx) => {
            assert(while_run(cond, i@, idx as int));
            if idx >= m {
                if idx <= n {
                    Ok(take_split(input, idx))
                } else {
                    Ok(take_split(input, n))
                }
            } else {
                Err(ErrMode::Error(E::from_error_kind(input, ErrorKind::TakeWhileMN)))
            }
        },
        None => {
            let len = input.len();
            assert(while_run(cond, i@, len as int));
            if len >= n {
                Ok(take_split(input, n))
            } else if len >= m && len <= n {
                Ok(take_split(input, len))
            } else {
                Err(ErrMode::Error(E::from_error_kind(input, ErrorKind::TakeWhileMN)))
            }
        },
    }
}

/// The longest prefix of `i` on whose elements `cond` does not hold; never
/// fails.
pub fn take_till<'a, F: Fn(u8) -> bool, E: ParseError<&'a [u8]>>(cond: F, i: &'a [u8]) -> (r:
    IResult<&'a [u8], &'a [u8], E>)
    requires
        forall|c: u8| cond.requires((c,)),
    ensures
        exists|n: int| stops_at(cond, i@, n) && splits(i@, n, r),
{
    split_at_position_complete(i, &cond)
}

/// The longest non-empty prefix of `i` on whose elements `cond` does not hold.
pub fn take_till1<'a, F: Fn(u8) -> bool, E: ParseError<&'a [u8]>>(cond: F, i: &'a [u8]) -> (r:
    IResult<&'a [u8], &'a [u8], E>)
    requires
        forall|c: u8| cond.requires((c,)),
    ensures
        exists|n: int| stops_at(cond, i@, n) && nonempty_run(i, n, ErrorKind::TakeTill1, r),
{
    split_at_position1_complete(i, &cond, ErrorKind::TakeTill1)
}

/// The first `count` elements of `i`.
pub fn take<'a, E: ParseError<&'a [u8]>>(count: usize, i: &'a [u8]) -> (r: IResult<
    &'a [u8],
    &'a [u8],
    E,
>)
    ensures
        take_outcome(count as int, i, r),
{
    match slice_index(i, count) {
        None => Err(ErrMode::Error(E::from_error_kind(i, ErrorKind::Eof))),
        Some(index) => Ok(take_split(i, index)),
    }
}

/// Everything in `i` before the first occurrence of `lit`.
pub fn take_until<'a, E: ParseError<&'a [u8]>>(lit: &[u8], i: &'a [u8]) -> (r: IResult<
    &'a [u8],
    &'a [u8],
    E,
>)
    ensures
        take_until_outcome(lit@, i, r),
{
    match find_substring(i, lit) {
        None => Err(ErrMode::Error(E::from_error_kind(i, ErrorKind::TakeUntil))),
        Some(index) => {
            assert(occurs_at(i@, lit@, index as int));
            Ok(take_split(i, index))
        },
    }
}

/// `cond` gives one answer for each element.
pub open spec fn is_pure<F: Fn(u8) -> bool>(cond: F) -> bool {
    forall|c: u8, b1: bool, b2: bool|
        cond.ensures((c,), b1) && cond.ensures((c,), b2) ==> b1 == b2
}

/// Two outcomes agree: both match the same part and leave the same rest,
/// or both are recoverable errors.
pub open spec fn same_outcome<E>(r1: IResult<&[u8], &[u8], E>, r2: IResult<&[u8], &[u8], E>) -> bool {
    match (r1, r2) {
        (Ok((rest1, m1)), Ok((rest2, m2))) => rest1@ == rest2@ && m1@ == m2@,
        (Err(ErrMode::Error(_)), Err(ErrMode::Error(_))) => true,
        _ => false,
    }
}

/// On success, the matched part followed by the remaining part is exactly
/// the input, and the remaining part is no longer than the input. Every
/// parser here describes a success by `splits`.
pub proof fn lemma_split_concatenation<E>(i: Seq<u8>, n: int, r: IResult<&[u8], &[u8], E>)
    requires
        splits(i, n, r),
    ensures
        match r {
            Ok((rest, matched)) => {
                &&& matched@ + rest@ == i
                &&& rest@.len() <= i.len()
                &&& matched@.len() == i.len() - rest@.len()
            },
            Err(_) => false,
        },
{
    match r {
        Ok((rest, matched)) => {
            assert(matched@ + rest@ =~= i);
        },
        Err(_) => {},
    }
}

proof fn lemma_while_run_unique<F: Fn(u8) -> bool>(cond: F, s: Seq<u8>, n1: int, n2: int)
    requires
        is_pure(cond),
        while_run(cond, s, n1),
        while_run(cond, s, n2),
    ensures
        n1 == n2,
{
    if n1 < n2 {
        assert(cond.ensures((s[n1],), true));
    } else if n2 < n1 {
        assert(cond.ensures((s[n2],), true));
    }
}

proof fn lemma_stops_at_unique<F: Fn(u8) -> bool>(cond: F, s: Seq<u8>, n1: int, n2: int)
    requires
        is_pure(cond),
        stops_at(cond, s, n1),
        stops_at(cond, s, n2),
    ensures
        n1 == n2,
{
    if n1 < n2 {
        assert(cond.ensures((s[n1],), false));
    } else if n2 < n1 {
        assert(cond.ensures((s[n2],), false));
    }
}

proof fn lemma_set_run_unique(set: Seq<u8>, s: Seq<u8>, n1: int, n2: int, inside: bool)
    requires
        set_run(set, s, n1, inside),
        set_run(set, s, n2, inside),
    ensures
        n1 == n2,
{
    if n1 < n2 {
        assert(set.contains(s[n1]) == inside);
    } else if n2 < n1 {
        assert(set.contains(s[n2]) == inside);
    }
}

proof fn lemma_nonempty_run_agree<'a, E: ParseError<&'a [u8]>>(
    i: &'a [u8],
    n: int,
    kind: ErrorKind,
    r1: IResult<&'a [u8], &'a [u8], E>,
    r2: IResult<&'a [u8], &'a [u8], E>,
)
    requires
        nonempty_run(i, n, kind, r1),
        nonempty_run(i, n, kind, r2),
    ensures
        same_outcome(r1, r2),
{
}

/// `take_while` with a pure predicate gives the same outcome twice on one input.
pub proof fn lemma_take_while_deterministic<'a, F: Fn(u8) -> bool, E: ParseError<&'a [u8]>>(
    cond: F,
    i: &'a [u8],
    r1: IResult<&'a [u8], &'a [u8], E>,
    r2: IResult<&'a [u8], &'a [u8], E>,
)
    requires
        is_pure(cond),
        exists|n: int| while_run(cond, i@, n) && splits(i@, n, r1),
        exists|n: int| while_run(cond, i@, n) && splits(i@, n, r2),
    ensures
        same_outcome(r1, r2),
{
    let n1 = choose|n: int| while_run(cond, i@, n) && splits(i@, n, r1);
    let n2 = choose|n: int| while_run(cond, i@, n) && splits(i@, n, r2);
    lemma_while_run_unique(cond, i@, n1, n2);
}

/// `take_while1` with a pure predicate gives the same outcome twice on one input.
pub proof fn lemma_take_while1_deterministic<'a, F: Fn(u8) -> bool, E: ParseError<&'a [u8]>>(
    cond: F,
    i: &'a [u8],
    r1: IResult<&'a [u8], &'a [u8], E>,
    r2: IResult<&'a [u8], &'a [u8], E>,
)
    requires
        is_pure(cond),
        exists|n: int| while_run(cond, i@, n) && nonempty_run(i, n, ErrorKind::TakeWhile1, r1),
        exists|n: int| while_run(cond, i@, n) && nonempty_run(i, n, ErrorKind::TakeWhile1, r2),
    ensures
        same_outcome(r1, r2),
{
    let n1 = choose|n: int| while_run(cond, i@, n) && nonempty_run(i, n, ErrorKind::TakeWhile1, r1);
    let n2 = choose|n: int| while_run(cond, i@, n) && nonempty_run(i, n, ErrorKind::TakeWhile1, r2);
    lemma_while_run_unique(cond, i@, n1, n2);
    lemma_nonempty_run_agree(i, n1, ErrorKind::TakeWhile1, r1, r2);
}

/// `take_till` with a pure predicate gives the same outcome twice on one input.
pub proof fn lemma_take_till_deterministic<'a, F: Fn(u8) -> bool, E: ParseError<&'a [u8]>>(
    cond: F,
    i: &'a [u8],
    r1: IResult<&'a [u8], &'a [u8], E>,
    r2: IResult<&'a [u8], &'a [u8], E>,
)
    requires
        is_pure(cond),
        exists|n: int| stops_at(cond, i@, n) && splits(i@, n, r1),
        exists|n: int| stops_at(cond, i@, n) && splits(i@, n, r2),
    ensures
        same_outcome(r1, r2),
{
    let n1 = choose|n: int| stops_at(cond, i@, n) && splits(i@, n, r1);
    let n2 = choose|n: int| stops_at(cond, i@, n) && splits(i@, n, r2);
    lemma_stops_at_unique(cond, i@, n1, n2);
}

/// `take_till1` with a pure predicate gives the same outcome twice on one input.
pub proof fn lemma_take_till1_deterministic<'a, F: Fn(u8) -> bool, E: ParseError<&'a [u8]>>(
    cond: F,
    i: &'a [u8],
    r1: IResult<&'a [u8], &'a [u8], E>,
    r2: IResult<&'a [u8], &'a [u8], E>,
)
    requires
        is_pure(cond),
        exists|n: int| stops_at(cond, i@, n) && nonempty_run(i, n, ErrorKind::TakeTill1, r1),
        exists|n: int| stops_at(cond, i@, n) && nonempty_run(i, n, ErrorKind::TakeTill1, r2),
    ensures
        same_outcome(r1, r2),
{
    let n1 = choose|n: int| stops_at(cond, i@, n) && nonempty_run(i, n, ErrorKind::TakeTill1, r1);
    let n2 = choose|n: int| stops_at(cond, i@, n) && nonempty_run(i, n, ErrorKind::TakeTill1, r2);
    lemma_stops_at_unique(cond, i@, n1, n2);
    lemma_nonempty_run_agree(i, n1, ErrorKind::TakeTill1, r1, r2);
}

/// `take_while_m_n` with a pure predicate gives the same outcome twice on
/// one input.
pub proof fn lemma_take_while_m_n_deterministic<'a, F: Fn(u8) -> bool, E: ParseError<&'a [u8]>>(
    m: int,
    n: int,
    cond: F,
    i: &'a [u8],
    r1: IResult<&'a [u8], &'a [u8], E>,
    r2: IResult<&'a [u8], &'a [u8], E>,
)
    requires
        is_pure(cond),
        exists|run: int| while_run(cond, i@, run) && m_n_outcome(m, n, run, i, r1),
        exists|run: int| while_run(cond, i@, run) && m_n_outcome(m, n, run, i, r2),
    ensures
        same_outcome(r1, r2),
{
    let n1 = choose|run: int| while_run(cond, i@, run) && m_n_outcome(m, n, run, i, r1);
    let n2 = choose|run: int| while_run(cond, i@, run) && m_n_outcome(m, n, run, i, r2);
    lemma_while_run_unique(cond, i@, n1, n2);
}

/// `is_a` and `is_not` give the same outcome twice on one input.
pub proof fn lemma_set_scan_deterministic<'a, E: ParseError<&'a [u8]>>(
    set: Seq<u8>,
    inside: bool,
    kind: ErrorKind,
    i: &'a [u8],
    r1: IResult<&'a [u8], &'a [u8], E>,
    r2: IResult<&'a [u8], &'a [u8], E>,
)
    requires
        exists|n: int| set_run(set, i@, n, inside) && nonempty_run(i, n, kind, r1),
        exists|n: int| set_run(set, i@, n, inside) && nonempty_run(i, n, kind, r2),
    ensures
        same_outcome(r1, r2),
{
    let n1 = choose|n: int| set_run(set, i@, n, inside) && nonempty_run(i, n, kind, r1);
    let n2 = choose|n: int| set_run(set, i@, n, inside) && nonempty_run(i, n, kind, r2);
    lemma_set_run_unique(set, i@, n1, n2, inside);
    lemma_nonempty_run_agree(i, n1, kind, r1, r2);
}

/// `take_until` gives the same outcome twice on one input.
pub proof fn lemma_take_until_deterministic<'a, E: ParseError<&'a [u8]>>(
    t: Seq<u8>,
    i: &'a [u8],
    r1: IResult<&'a [u8], &'a [u8], E>,
    r2: IResult<&'a [u8], &'a [u8], E>,
)
    requires
        take_until_outcome(t, i, r1),
        take_until_outcome(t, i, r2),
    ensures
        same_outcome(r1, r2),
{
    if exists|k: int| occurs_at(i@, t, k) {
        let k1 = choose|k: int| is_first_occurrence(i@, t, k) && splits(i@, k, r1);
        let k2 = choose|k: int| is_first_occurrence(i@, t, k) && splits(i@, k, r2);
        if k1 < k2 {
            assert(!occurs_at(i@, t, k1));
        } else if k2 < k1 {
            assert(!occurs_at(i@, t, k2));
        }
    }
}

/// `tag`, `tag_no_case` and `take` give the same outcome twice on one input.
pub proof fn lemma_literal_deterministic<'a, E: ParseError<&'a [u8]>>(
    t: Seq<u8>,
    count: int,
    i: &'a [u8],
    r1: IResult<&'a [u8], &'a [u8], E>,
    r2: IResult<&'a [u8], &'a [u8], E>,
)
    ensures
        tag_outcome(t, i, r1) && tag_outcome(t, i, r2) ==> same_outcome(r1, r2),
        tag_no_case_outcome(t, i, r1) && tag_no_case_outcome(t, i, r2) ==> same_outcome(r1, r2),
        take_outcome(count, i, r1) && take_outcome(count, i, r2) ==> same_outcome(r1, r2),
{
}

} // verus!
