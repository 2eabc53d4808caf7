use nom::bytes::complete::{
    is_a, is_not, tag, tag_no_case, take, take_till, take_till1, take_until, take_while,
    take_while1, take_while_m_n,
};
use nom::error::{ErrorKind, VerboseError, VerboseErrorKind};
use nom::internal::{ErrMode, IResult};

type Res<'a> = IResult<&'a [u8], &'a [u8], (&'a [u8], ErrorKind)>;

fn digit(c: u8) -> bool {
    c.is_ascii_digit()
}

#[test]
fn tag_matches_prefix() {
    let r: Res = tag(&b"hello"[..], &b"hello world"[..]);
    assert_eq!(r, Ok((&b" world"[..], &b"hello"[..])));
}

#[test]
fn tag_fails_on_short_input() {
    let i = &b"hel"[..];
    let r: Res = tag(&b"hello"[..], i);
    assert_eq!(r, Err(ErrMode::Error((i, ErrorKind::Tag))));
}

#[test]
fn tag_fails_on_mismatch() {
    let i = &b"help me"[..];
    let r: Res = tag(&b"hello"[..], i);
    assert_eq!(r, Err(ErrMode::Error((i, ErrorKind::Tag))));
}

#[test]
fn tag_empty_literal_matches_nothing() {
    let r: Res = tag(&b""[..], &b"abc"[..]);
    assert_eq!(r, Ok((&b"abc"[..], &b""[..])));
}

#[test]
fn tag_no_case_ignores_ascii_case() {
    let r: Res = tag_no_case(&b"hello"[..], &b"HeLLo world"[..]);
    assert_eq!(r, Ok((&b" world"[..], &b"HeLLo"[..])));
    let i = &b"HeLP"[..];
    let r: Res = tag_no_case(&b"hello"[..], i);
    assert_eq!(r, Err(ErrMode::Error((i, ErrorKind::Tag))));
}

#[test]
fn take_while_m_n_within_bounds() {
    let r: Res = take_while_m_n(2, 4, |c: u8| c.is_ascii_digit(), &b"123abc"[..]);
    assert_eq!(r, Ok((&b"abc"[..], &b"123"[..])));
}

#[test]
fn take_while_m_n_below_minimum() {
    let i = &b"123abc"[..];
    let r: Res = take_while_m_n(4, 5, |c: u8| c.is_ascii_digit(), i);
    assert_eq!(r, Err(ErrMode::Error((i, ErrorKind::TakeWhileMN))));
}

#[test]
fn take_while_m_n_below_minimum_at_end() {
    let i = &b"12"[..];
    let r: Res = take_while_m_n(3, 5, digit, i);
    assert_eq!(r, Err(ErrMode::Error((i, ErrorKind::TakeWhileMN))));
}

#[test]
fn take_while_m_n_caps_at_maximum() {
    let r: Res = take_while_m_n(1, 3, digit, &b"123456"[..]);
    assert_eq!(r, Ok((&b"456"[..], &b"123"[..])));
    let r: Res = take_while_m_n(1, 3, digit, &b"12345x"[..]);
    assert_eq!(r, Ok((&b"45x"[..], &b"123"[..])));
}

#[test]
fn take_while_m_n_whole_input() {
    let r: Res = take_while_m_n(2, 5, digit, &b"1234"[..]);
    assert_eq!(r, Ok((&b""[..], &b"1234"[..])));
    let r: Res = take_while_m_n(0, 2, digit, &b""[..]);
    assert_eq!(r, Ok((&b""[..], &b""[..])));
}

#[test]
fn take_until_finds_needle() {
    let r: Res = take_until(&b"world"[..], &b"hello world"[..]);
    assert_eq!(r, Ok((&b"world"[..], &b"hello "[..])));
}

#[test]
fn take_until_missing_needle() {
    let i = &b"hello world"[..];
    let r: Res = take_until(&b"xyz"[..], i);
    assert_eq!(r, Err(ErrMode::Error((i, ErrorKind::TakeUntil))));
}

#[test]
fn take_until_first_occurrence_and_at_start() {
    let r: Res = take_until(&b"ab"[..], &b"xxabyab"[..]);
    assert_eq!(r, Ok((&b"abyab"[..], &b"xx"[..])));
    let r: Res = take_until(&b"ab"[..], &b"abc"[..]);
    assert_eq!(r, Ok((&b"abc"[..], &b""[..])));
}

#[test]
fn take_too_many_is_eof() {
    let i = &b"ab"[..];
    let r: Res = take(3, i);
    assert_eq!(r, Err(ErrMode::Error((i, ErrorKind::Eof))));
}

#[test]
fn take_zero_and_exact() {
    let r: Res = take(0, &b"ab"[..]);
    assert_eq!(r, Ok((&b"ab"[..], &b""[..])));
    let r: Res = take(2, &b"ab"[..]);
    assert_eq!(r, Ok((&b""[..], &b"ab"[..])));
}

#[test]
fn take_while_and_till_never_fail() {
    let r: Res = take_while(digit, &b""[..]);
    assert_eq!(r, Ok((&b""[..], &b""[..])));
    let r: Res = take_while(digit, &b"abc"[..]);
    assert_eq!(r, Ok((&b"abc"[..], &b""[..])));
    let r: Res = take_while(digit, &b"12"[..]);
    assert_eq!(r, Ok((&b""[..], &b"12"[..])));
    let r: Res = take_till(digit, &b""[..]);
    assert_eq!(r, Ok((&b""[..], &b""[..])));
    let r: Res = take_till(digit, &b"ab1c"[..]);
    assert_eq!(r, Ok((&b"1c"[..], &b"ab"[..])));
}

#[test]
fn nonempty_scans_fail_on_empty_match() {
    let i = &b"abc"[..];
    let r: Res = take_while1(digit, i);
    assert_eq!(r, Err(ErrMode::Error((i, ErrorKind::TakeWhile1))));
    let e = &b""[..];
    let r: Res = take_while1(digit, e);
    assert_eq!(r, Err(ErrMode::Error((e, ErrorKind::TakeWhile1))));
    let d = &b"1bc"[..];
    let r: Res = take_till1(digit, d);
    assert_eq!(r, Err(ErrMode::Error((d, ErrorKind::TakeTill1))));
    let r: Res = is_a(&b"0123456789"[..], i);
    assert_eq!(r, Err(ErrMode::Error((i, ErrorKind::IsA))));
    let r: Res = is_not(&b"abc"[..], i);
    assert_eq!(r, Err(ErrMode::Error((i, ErrorKind::IsNot))));
}

#[test]
fn nonempty_scans_succeed() {
    let r: Res = take_while1(digit, &b"12ab"[..]);
    assert_eq!(r, Ok((&b"ab"[..], &b"12"[..])));
    let r: Res = take_till1(digit, &b"ab12"[..]);
    assert_eq!(r, Ok((&b"12"[..], &b"ab"[..])));
    let r: Res = is_a(&b"ab"[..], &b"abbaxab"[..]);
    assert_eq!(r, Ok((&b"xab"[..], &b"abba"[..])));
    let r: Res = is_not(&b" \t"[..], &b"word rest"[..]);
    assert_eq!(r, Ok((&b" rest"[..], &b"word"[..])));
    let r: Res = is_not(&b" "[..], &b"word"[..]);
    assert_eq!(r, Ok((&b""[..], &b"word"[..])));
}

#[test]
fn success_splits_input_exactly() {
    let i = &b"hello world"[..];
    let r: Res = take_till(|c: u8| c == b' ', i);
    let (rest, matched) = r.unwrap();
    let mut joined = matched.to_vec();
    joined.extend_from_slice(rest);
    assert_eq!(joined, i.to_vec());
    assert!(rest.len() <= i.len());
    assert_eq!(matched.len(), i.len() - rest.len());
}

#[test]
fn parsers_are_deterministic() {
    let i = &b"123abc"[..];
    let a: Res = take_while_m_n(2, 4, digit, i);
    let b: Res = take_while_m_n(2, 4, digit, i);
    assert_eq!(a, b);
    let a: Res = take_until(&b"c"[..], i);
    let b: Res = take_until(&b"c"[..], i);
    assert_eq!(a, b);
}

#[test]
fn verbose_and_unit_errors() {
    let i = &b"abc"[..];
    let r: IResult<&[u8], &[u8], VerboseError<&[u8]>> = tag(&b"x"[..], i);
    assert_eq!(
        r,
        Err(ErrMode::Error(VerboseError { errors: vec![(i, VerboseErrorKind::Nom(ErrorKind::Tag))] }))
    );
    let r: IResult<&[u8], &[u8], ()> = take(5, i);
    assert_eq!(r, Err(ErrMode::Error(())));
}
