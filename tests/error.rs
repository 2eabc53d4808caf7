use nom::bytes::complete::tag;
use nom::error::{
    append_error, context, error_to_u32, make_error, ErrorKind, ParseError, VerboseError,
    VerboseErrorKind,
};
use nom::internal::{ErrMode, IResult, Needed};

#[test]
fn error_codes_are_stable() {
    assert_eq!(error_to_u32(&ErrorKind::Tag), 1);
    assert_eq!(error_to_u32(&ErrorKind::IsNot), 5);
    assert_eq!(error_to_u32(&ErrorKind::IsA), 6);
    assert_eq!(error_to_u32(&ErrorKind::TakeUntil), 12);
    assert_eq!(error_to_u32(&ErrorKind::Eof), 23);
    assert_eq!(error_to_u32(&ErrorKind::Char), 40);
    assert_eq!(error_to_u32(&ErrorKind::TakeWhile1), 47);
    assert_eq!(error_to_u32(&ErrorKind::Many0), 62);
    assert_eq!(error_to_u32(&ErrorKind::TakeTill1), 67);
    assert_eq!(error_to_u32(&ErrorKind::TakeWhileMN), 69);
    assert_eq!(error_to_u32(&ErrorKind::Many1Count), 73);
}

#[test]
fn error_descriptions() {
    assert_eq!(ErrorKind::Tag.description(), "Tag");
    assert_eq!(ErrorKind::Eof.description(), "End of file");
    assert_eq!(ErrorKind::MapRes.description(), "Map on Result");
    assert_eq!(ErrorKind::TakeUntil.description(), "Take until");
    assert_eq!(ErrorKind::Verify.description(), "predicate verification");
    assert_eq!(ErrorKind::ManyMN.description(), "Many(m, n)");
}

#[test]
fn minimal_error_keeps_newest_position() {
    let e: (&str, ErrorKind) = make_error("abc", ErrorKind::Tag);
    assert_eq!(e, ("abc", ErrorKind::Tag));
    let e2 = append_error("xabc", ErrorKind::Alt, e);
    assert_eq!(e2, ("abc", ErrorKind::Tag));
    assert_eq!(<(&str, ErrorKind)>::from_char("q", 'x'), ("q", ErrorKind::Char));
    assert_eq!(e2.or(("z", ErrorKind::Eof)), ("z", ErrorKind::Eof));
}

#[test]
fn verbose_error_accumulates() {
    let e: VerboseError<&str> = make_error("abc", ErrorKind::Tag);
    let e = append_error("xabc", ErrorKind::Alt, e);
    let e = VerboseError::add_context("yxabc", "label", e);
    assert_eq!(
        e.errors,
        vec![
            ("abc", VerboseErrorKind::Nom(ErrorKind::Tag)),
            ("xabc", VerboseErrorKind::Nom(ErrorKind::Alt)),
            ("yxabc", VerboseErrorKind::Context("label")),
        ]
    );
    let c = VerboseError::from_char("q", 'x');
    assert_eq!(c.errors, vec![("q", VerboseErrorKind::Char('x'))]);
}

fn hello(i: &[u8]) -> IResult<&[u8], &[u8], VerboseError<&[u8]>> {
    tag(&b"hello"[..], i)
}

#[test]
fn context_promotes_error_to_failure() {
    let i = &b"help"[..];
    let r = context("greeting", hello, i);
    assert_eq!(
        r,
        Err(ErrMode::Failure(VerboseError {
            errors: vec![
                (i, VerboseErrorKind::Nom(ErrorKind::Tag)),
                (i, VerboseErrorKind::Context("greeting")),
            ]
        }))
    );
}

#[test]
fn context_passes_success_and_incomplete() {
    let i = &b"hello!"[..];
    assert_eq!(context("greeting", hello, i), Ok((&b"!"[..], &b"hello"[..])));
    let incomplete = |_: &[u8]| -> IResult<&[u8], &[u8], VerboseError<&[u8]>> {
        Err(ErrMode::Incomplete(Needed::Size(2)))
    };
    assert_eq!(context("x", incomplete, i), Err(ErrMode::Incomplete(Needed::Size(2))));
}

#[test]
fn unit_error_records_nothing() {
    let e: () = make_error("abc", ErrorKind::Tag);
    assert_eq!(append_error("abc", ErrorKind::Alt, e), ());
}
