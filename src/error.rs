//! Error kinds, the pluggable error contract and its two reference
//! representations, and the context wrapper.
use vstd::prelude::*;
use crate::internal::{ErrMode, IResult};

verus! {

/// Names the parser that rejected the input.
#[derive(Debug, Clone, Copy, PartialEq, Eq, Hash, Structural)]
pub enum ErrorKind {
    Tag,
    MapRes,
    MapOpt,
    Alt,
    IsNot,
    IsA,
    SeparatedList,
    SeparatedNonEmptyList,
    Many0,
    Many1,
    ManyTill,
    Count,
    TakeUntilAndConsume,
    TakeUntil,
    TakeUntilEitherAndConsume,
    TakeUntilEither,
    LengthValue,
    TagClosure,
    Alpha,
    Digit,
    HexDigit,
    OctDigit,
    AlphaNumeric,
    Space,
    MultiSpace,
    LengthValueFn,
    Eof,
    ExprOpt,
    ExprRes,
    CondReduce,
    Switch,
    TagBits,
    OneOf,
    NoneOf,
    Char,
    CrLf,
    RegexpMatch,
    RegexpMatches,
    RegexpFind,
    RegexpCapture,
    RegexpCaptures,
    TakeWhile1,
    Complete,
    Fix,
    Escaped,
    EscapedTransform,
    NonEmpty,
    ManyMN,
    Not,
    Permutation,
    Verify,
    TakeTill1,
    TakeUntilAndConsume1,
    TakeWhileMN,
    ParseTo,
    TooLarge,
    Many0Count,
    Many1Count,
}

/// The stable numeric code of each kind.
pub open spec fn kind_code(k: ErrorKind) -> u32 {
    match k {
        ErrorKind::Tag => 1,
        ErrorKind::MapRes => 2,
        ErrorKind::MapOpt => 3,
        ErrorKind::Alt => 4,
        ErrorKind::IsNot => 5,
        ErrorKind::IsA => 6,
        ErrorKind::SeparatedList => 7,
        ErrorKind::SeparatedNonEmptyList => 8,
        ErrorKind::Many1 => 9,
        ErrorKind::Count => 10,
        ErrorKind::TakeUntilAndConsume => 11,
        ErrorKind::TakeUntil => 12,
        ErrorKind::TakeUntilEitherAndConsume => 13,
        ErrorKind::TakeUntilEither => 14,
        ErrorKind::LengthValue => 15,
        ErrorKind::TagClosure => 16,
        ErrorKind::Alpha => 17,
        ErrorKind::Digit => 18,
        ErrorKind::AlphaNumeric => 19,
        ErrorKind::Space => 20,
        ErrorKind::MultiSpace => 21,
        ErrorKind::LengthValueFn => 22,
        ErrorKind::Eof => 23,
        ErrorKind::ExprOpt => 24,
        ErrorKind::ExprRes => 25,
        ErrorKind::CondReduce => 26,
        ErrorKind::Switch => 27,
        ErrorKind::TagBits => 28,
        ErrorKind::OneOf => 29,
        ErrorKind::NoneOf => 30,
        ErrorKind::Char => 40,
        ErrorKind::CrLf => 41,
        ErrorKind::RegexpMatch => 42,
        ErrorKind::RegexpMatches => 43,
        ErrorKind::RegexpFind => 44,
        ErrorKind::RegexpCapture => 45,
        ErrorKind::RegexpCaptures => 46,
        ErrorKind::TakeWhile1 => 47,
        ErrorKind::Complete => 48,
        ErrorKind::Fix => 49,
        ErrorKind::Escaped => 50,
        ErrorKind::EscapedTransform => 51,
        ErrorKind::NonEmpty => 56,
        ErrorKind::ManyMN => 57,
        ErrorKind::HexDigit => 59,
        ErrorKind::OctDigit => 61,
        ErrorKind::Many0 => 62,
        ErrorKind::Not => 63,
        ErrorKind::Permutation => 64,
        ErrorKind::ManyTill => 65,
        ErrorKind::Verify => 66,
        ErrorKind::TakeTill1 => 67,
        ErrorKind::TakeUntilAndConsume1 => 68,
        ErrorKind::TakeWhileMN => 69,
        ErrorKind::ParseTo => 70,
        ErrorKind::TooLarge => 71,
        ErrorKind::Many0Count => 72,
        ErrorKind::Many1Count => 73,
    }
}

/// The kind that carries a given numeric code, if any.
pub open spec fn kind_of_code(c: u32) -> Option<ErrorKind> {
    if c == 1 {
        Some(ErrorKind::Tag)
    } else if c == 2 {
        Some(ErrorKind::MapRes)
    } else if c == 3 {
        Some(ErrorKind::MapOpt)
    } else if c == 4 {
        Some(ErrorKind::Alt)
    } else if c == 5 {
        Some(ErrorKind::IsNot)
    } else if c == 6 {
        Some(ErrorKind::IsA)
    } else if c == 7 {
        Some(ErrorKind::SeparatedList)
    } else if c == 8 {
        Some(ErrorKind::SeparatedNonEmptyList)
    } else if c == 9 {
        Some(ErrorKind::Many1)
    } else if c == 10 {
        Some(ErrorKind::Count)
    } else if c == 11 {
        Some(ErrorKind::TakeUntilAndConsume)
    } else if c == 12 {
        Some(ErrorKind::TakeUntil)
    } else if c == 13 {
        Some(ErrorKind::TakeUntilEitherAndConsume)
    } else if c == 14 {
        Some(ErrorKind::TakeUntilEither)
    } else if c == 15 {
        Some(ErrorKind::LengthValue)
    } else if c == 16 {
        Some(ErrorKind::TagClosure)
    } else if c == 17 {
        Some(ErrorKind::Alpha)
    } else if c == 18 {
        Some(ErrorKind::Digit)
    } else if c == 19 {
        Some(ErrorKind::AlphaNumeric)
    } else if c == 20 {
        Some(ErrorKind::Space)
    } else if c == 21 {
        Some(ErrorKind::MultiSpace)
    } else if c == 22 {
        Some(ErrorKind::LengthValueFn)
    } else if c == 23 {
        Some(ErrorKind::Eof)
    } else if c == 24 {
        Some(ErrorKind::ExprOpt)
    } else if c == 25 {
        Some(ErrorKind::ExprRes)
    } else if c == 26 {
        Some(ErrorKind::CondReduce)
    } else if c == 27 {
        Some(ErrorKind::Switch)
    } else if c == 28 {
        Some(ErrorKind::TagBits)
    } else if c == 29 {
        Some(ErrorKind::OneOf)
    } else if c == 30 {
        Some(ErrorKind::NoneOf)
    } else if c == 40 {
        Some(ErrorKind::Char)
    } else if c == 41 {
        Some(ErrorKind::CrLf)
    } else if c == 42 {
        Some(ErrorKind::RegexpMatch)
    } else if c == 43 {
        Some(ErrorKind::RegexpMatches)
    } else if c == 44 {
        Some(ErrorKind::RegexpFind)
    } else if c == 45 {
        Some(ErrorKind::RegexpCapture)
    } else if c == 46 {
        Some(ErrorKind::RegexpCaptures)
    } else if c == 47 {
        Some(ErrorKind::TakeWhile1)
    } else if c == 48 {
        Some(ErrorKind::Complete)
    } else if c == 49 {
        Some(ErrorKind::Fix)
    } else if c == 50 {
        Some(ErrorKind::Escaped)
    } else if c == 51 {
        Some(ErrorKind::EscapedTransform)
    } else if c == 56 {
        Some(ErrorKind::NonEmpty)
    } else if c == 57 {
        Some(ErrorKind::ManyMN)
    } else if c == 59 {
        Some(ErrorKind::HexDigit)
    } else if c == 61 {
        Some(ErrorKind::OctDigit)
    } else if c == 62 {
        Some(ErrorKind::Many0)
    } else if c == 63 {
        Some(ErrorKind::Not)
    } else if c == 64 {
        Some(ErrorKind::Permutation)
    } else if c == 65 {
        Some(ErrorKind::ManyTill)
    } else if c == 66 {
        Some(ErrorKind::Verify)
    } else if c == 67 {
        Some(ErrorKind::TakeTill1)
    } else if c == 68 {
        Some(ErrorKind::TakeUntilAndConsume1)
    } else if c == 69 {
        Some(ErrorKind::TakeWhileMN)
    } else if c == 70 {
        Some(ErrorKind::ParseTo)
    } else if c == 71 {
        Some(ErrorKind::TooLarge)
    } else if c == 72 {
        Some(ErrorKind::Many0Count)
    } else if c == 73 {
        Some(ErrorKind::Many1Count)
    } else {
        None
    }
}

/// The human-readable description of each kind.
pub open spec fn kind_description(k: ErrorKind) -> &'static str {
    match k {
        ErrorKind::Tag => "Tag",
        ErrorKind::MapRes => "Map on Result",
        ErrorKind::MapOpt => "Map on Option",
        ErrorKind::Alt => "Alternative",
        ErrorKind::IsNot => "IsNot",
        ErrorKind::IsA => "IsA",
        ErrorKind::SeparatedList => "Separated list",
        ErrorKind::SeparatedNonEmptyList => "Separated non empty list",
        ErrorKind::Many0 => "Many0",
        ErrorKind::Many1 => "Many1",
        ErrorKind::ManyTill => "ManyTill",
        ErrorKind::Count => "Count",
        ErrorKind::TakeUntilAndConsume => "Take until and consume",
        ErrorKind::TakeUntil => "Take until",
        ErrorKind::TakeUntilEitherAndConsume => "Take until either and consume",
        ErrorKind::TakeUntilEither => "Take until either",
        ErrorKind::LengthValue => "Length followed by value",
        ErrorKind::TagClosure => "Tag closure",
        ErrorKind::Alpha => "Alphabetic",
        ErrorKind::Digit => "Digit",
        ErrorKind::HexDigit => "Hexadecimal Digit",
        ErrorKind::OctDigit => "Octal digit",
        ErrorKind::AlphaNumeric => "AlphaNumeric",
        ErrorKind::Space => "Space",
        ErrorKind::MultiSpace => "Multiple spaces",
        ErrorKind::LengthValueFn => "LengthValueFn",
        ErrorKind::Eof => "End of file",
        ErrorKind::ExprOpt => "Evaluate Option",
        ErrorKind::ExprRes => "Evaluate Result",
        ErrorKind::CondReduce => "Condition reduce",
        ErrorKind::Switch => "Switch",
        ErrorKind::TagBits => "Tag on bitstream",
        ErrorKind::OneOf => "OneOf",
        ErrorKind::NoneOf => "NoneOf",
        ErrorKind::Char => "Char",
        ErrorKind::CrLf => "CrLf",
        ErrorKind::RegexpMatch => "RegexpMatch",
        ErrorKind::RegexpMatches => "RegexpMatches",
        ErrorKind::RegexpFind => "RegexpFind",
        ErrorKind::RegexpCapture => "RegexpCapture",
        ErrorKind::RegexpCaptures => "RegexpCaptures",
        ErrorKind::TakeWhile1 => "TakeWhile1",
        ErrorKind::Complete => "Complete",
        ErrorKind::Fix => "Fix",
        ErrorKind::Escaped => "Escaped",
        ErrorKind::EscapedTransform => "EscapedTransform",
        ErrorKind::NonEmpty => "NonEmpty",
        ErrorKind::ManyMN => "Many(m, n)",
        ErrorKind::Not => "Negation",
        ErrorKind::Permutation => "Permutation",
        ErrorKind::Verify => "predicate verification",
        ErrorKind::TakeTill1 => "TakeTill1",
        ErrorKind::TakeUntilAndConsume1 => "Take at least 1 until and consume",
        ErrorKind::TakeWhileMN => "TakeWhileMN",
        ErrorKind::ParseTo => "Parse string to the specified type",
        ErrorKind::TooLarge => "Needed data size is too large",
        ErrorKind::Many0Count => "Count occurrence of >=0 patterns",
        ErrorKind::Many1Count => "Count occurrence of >=1 patterns",
    }
}

/// Each kind has a non-zero code, and no two kinds share one.
pub proof fn lemma_codes_identify_kinds(a: ErrorKind, b: ErrorKind)
    ensures
        kind_code(a) != 0,
        kind_of_code(kind_code(a)) == Some(a),
        kind_code(a) == kind_code(b) ==> a == b,
{
    assert(kind_of_code(kind_code(a)) == Some(a));
    assert(kind_of_code(kind_code(b)) == Some(b));
}

/// Converts a kind to its stable numeric code.
pub fn error_to_u32(e: &ErrorKind) -> (r: u32)
    ensures
        r == kind_code(*e),
{
    match *e {
        ErrorKind::Tag => 1,
        ErrorKind::MapRes => 2,
        ErrorKind::MapOpt => 3,
        ErrorKind::Alt => 4,
        ErrorKind::IsNot => 5,
        ErrorKind::IsA => 6,
        ErrorKind::SeparatedList => 7,
        ErrorKind::SeparatedNonEmptyList => 8,
        ErrorKind::Many1 => 9,
        ErrorKind::Count => 10,
        ErrorKind::TakeUntilAndConsume => 11,
        ErrorKind::TakeUntil => 12,
        ErrorKind::TakeUntilEitherAndConsume => 13,
        ErrorKind::TakeUntilEither => 14,
        ErrorKind::LengthValue => 15,
        ErrorKind::TagClosure => 16,
        ErrorKind::Alpha => 17,
        ErrorKind::Digit => 18,
        ErrorKind::AlphaNumeric => 19,
        ErrorKind::Space => 20,
        ErrorKind::MultiSpace => 21,
        ErrorKind::LengthValueFn => 22,
        ErrorKind::Eof => 23,
        ErrorKind::ExprOpt => 24,
        ErrorKind::ExprRes => 25,
        ErrorKind::CondReduce => 26,
        ErrorKind::Switch => 27,
        ErrorKind::TagBits => 28,
        ErrorKind::OneOf => 29,
        ErrorKind::NoneOf => 30,
        ErrorKind::Char => 40,
        ErrorKind::CrLf => 41,
        ErrorKind::RegexpMatch => 42,
        ErrorKind::RegexpMatches => 43,
        ErrorKind::RegexpFind => 44,
        ErrorKind::RegexpCapture => 45,
        ErrorKind::RegexpCaptures => 46,
        ErrorKind::TakeWhile1 => 47,
        ErrorKind::Complete => 48,
        ErrorKind::Fix => 49,
        ErrorKind::Escaped => 50,
        ErrorKind::EscapedTransform => 51,
        ErrorKind::NonEmpty => 56,
        ErrorKind::ManyMN => 57,
        ErrorKind::HexDigit => 59,
        ErrorKind::OctDigit => 61,
        ErrorKind::Many0 => 62,
        ErrorKind::Not => 63,
        ErrorKind::Permutation => 64,
        ErrorKind::ManyTill => 65,
        ErrorKind::Verify => 66,
        ErrorKind::TakeTill1 => 67,
        ErrorKind::TakeUntilAndConsume1 => 68,
        ErrorKind::TakeWhileMN => 69,
        ErrorKind::ParseTo => 70,
        ErrorKind::TooLarge => 71,
        ErrorKind::Many0Count => 72,
        ErrorKind::Many1Count => 73,
    }
}

impl ErrorKind {
    /// A human-readable description of the kind.
    pub fn description(&self) -> (r: &'static str)
        ensures
            r == kind_description(*self),
    {
        match *self {
            ErrorKind::Tag => "Tag",
            ErrorKind::MapRes => "Map on Result",
            ErrorKind::MapOpt => "Map on Option",
            ErrorKind::Alt => "Alternative",
            ErrorKind::IsNot => "IsNot",
            ErrorKind::IsA => "IsA",
            ErrorKind::SeparatedList => "Separated list",
            ErrorKind::SeparatedNonEmptyList => "Separated non empty list",
            ErrorKind::Many0 => "Many0",
            ErrorKind::Many1 => "Many1",
            ErrorKind::ManyTill => "ManyTill",
            ErrorKind::Count => "Count",
            ErrorKind::TakeUntilAndConsume => "Take until and consume",
            ErrorKind::TakeUntil => "Take until",
            ErrorKind::TakeUntilEitherAndConsume => "Take until either and consume",
            ErrorKind::TakeUntilEither => "Take until either",
            ErrorKind::LengthValue => "Length followed by value",
            ErrorKind::TagClosure => "Tag closure",
            ErrorKind::Alpha => "Alphabetic",
            ErrorKind::Digit => "Digit",
            ErrorKind::HexDigit => "Hexadecimal Digit",
            ErrorKind::OctDigit => "Octal digit",
            ErrorKind::AlphaNumeric => "AlphaNumeric",
            ErrorKind::Space => "Space",
            ErrorKind::MultiSpace => "Multiple spaces",
            ErrorKind::LengthValueFn => "LengthValueFn",
            ErrorKind::Eof => "End of file",
            ErrorKind::ExprOpt => "Evaluate Option",
            ErrorKind::ExprRes => "Evaluate Result",
            ErrorKind::CondReduce => "Condition reduce",
            ErrorKind::Switch => "Switch",
            ErrorKind::TagBits => "Tag on bitstream",
            ErrorKind::OneOf => "OneOf",
            ErrorKind::NoneOf => "NoneOf",
            ErrorKind::Char => "Char",
            ErrorKind::CrLf => "CrLf",
            ErrorKind::RegexpMatch => "RegexpMatch",
            ErrorKind::RegexpMatches => "RegexpMatches",
            ErrorKind::RegexpFind => "RegexpFind",
            ErrorKind::RegexpCapture => "RegexpCapture",
            ErrorKind::RegexpCaptures => "RegexpCaptures",
            ErrorKind::TakeWhile1 => "TakeWhile1",
            ErrorKind::Complete => "Complete",
            ErrorKind::Fix => "Fix",
            ErrorKind::Escaped => "Escaped",
            ErrorKind::EscapedTransform => "EscapedTransform",
            ErrorKind::NonEmpty => "NonEmpty",
            ErrorKind::ManyMN => "Many(m, n)",
            ErrorKind::Not => "Negation",
            ErrorKind::Permutation => "Permutation",
            ErrorKind::Verify => "predicate verification",
            ErrorKind::TakeTill1 => "TakeTill1",
            ErrorKind::TakeUntilAndConsume1 => "Take at least 1 until and consume",
            ErrorKind::TakeWhileMN => "TakeWhileMN",
            ErrorKind::ParseTo => "Parse string to the specified type",
            ErrorKind::TooLarge => "Needed data size is too large",
            ErrorKind::Many0Count => "Count occurrence of >=0 patterns",
            ErrorKind::Many1Count => "Count occurrence of >=1 patterns",
        }
    }
}

/// What an error type must offer to be built and extended by parsers.
///
/// Each constructor is described by a predicate on its result, so that each
/// representation states exactly what it keeps.
pub trait ParseError<I>: Sized {
    /// `e` is the error built from a position and a kind.
    spec fn is_from_error_kind(input: I, kind: ErrorKind, e: Self) -> bool;

    /// `e` is `other` extended with a position and a kind.
    spec fn is_append(input: I, kind: ErrorKind, other: Self, e: Self) -> bool;

    /// `e` is the error built from a position and an expected character.
    spec fn is_from_char(input: I, c: char, e: Self) -> bool;

    /// `e` combines `a` and `other`, errors of two alternatives.
    spec fn is_or(a: Self, other: Self, e: Self) -> bool;

    /// `e` is `other` extended with a position and a label.
    spec fn is_add_context(input: I, ctx: &'static str, other: Self, e: Self) -> bool;

    /// Builds an error from the input position and the kind of the failing parser.
    fn from_error_kind(input: I, kind: ErrorKind) -> (r: Self)
        ensures
            Self::is_from_error_kind(input, kind, r),
    ;

    /// Records that a parser of `kind` also failed at `input`, around `other`.
    fn append(input: I, kind: ErrorKind, other: Self) -> (r: Self)
        ensures
            Self::is_append(input, kind, other, r),
    ;

    /// Builds an error for an expected character.
    fn from_char(input: I, c: char) -> (r: Self)
        ensures
            Self::is_from_char(input, c, r),
    ;

    /// Combines the errors of two alternatives.
    fn or(self, other: Self) -> (r: Self)
        ensures
            Self::is_or(self, other, r),
    ;

    /// Attaches a static label at `input` to `other`.
    fn add_context(input: I, ctx: &'static str, other: Self) -> (r: Self)
        ensures
            Self::is_add_context(input, ctx, other, r),
    ;
}

/// The minimal representation: the position and the kind of the newest error.
impl<I> ParseError<I> for (I, ErrorKind) {
    open spec fn is_from_error_kind(input: I, kind: ErrorKind, e: Self) -> bool {
        e == (input, kind)
    }

    open spec fn is_append(input: I, kind: ErrorKind, other: Self, e: Self) -> bool {
        e == other
    }

    open spec fn is_from_char(input: I, c: char, e: Self) -> bool {
        e == (input, ErrorKind::Char)
    }

    open spec fn is_or(a: Self, other: Self, e: Self) -> bool {
        e == other
    }

    open spec fn is_add_context(input: I, ctx: &'static str, other: Self, e: Self) -> bool {
        e == other
    }

    fn from_error_kind(input: I, kind: ErrorKind) -> (r: Self) {
        (input, kind)
    }

    fn append(input: I, kind: ErrorKind, other: Self) -> (r: Self) {
        other
    }

    fn from_char(input: I, c: char) -> (r: Self) {
        (input, ErrorKind::Char)
    }

    fn or(self, other: Self) -> (r: Self) {
        other
    }

    fn add_context(input: I, ctx: &'static str, other: Self) -> (r: Self) {
        other
    }
}

/// The empty representation: records nothing.
impl<I> ParseError<I> for () {
    open spec fn is_from_error_kind(input: I, kind: ErrorKind, e: Self) -> bool {
        true
    }

    open spec fn is_append(input: I, kind: ErrorKind, other: Self, e: Self) -> bool {
        true
    }

    open spec fn is_from_char(input: I, c: char, e: Self) -> bool {
        true
    }

    open spec fn is_or(a: Self, other: Self, e: Self) -> bool {
        true
    }

    open spec fn is_add_context(input: I, ctx: &'static str, other: Self, e: Self) -> bool {
        true
    }

    fn from_error_kind(input: I, kind: ErrorKind) -> (r: Self) {
    }

    fn append(input: I, kind: ErrorKind, other: Self) -> (r: Self) {
    }

    fn from_char(input: I, c: char) -> (r: Self) {
    }

    fn or(self, other: Self) -> (r: Self) {
    }

    fn add_context(input: I, ctx: &'static str, other: Self) -> (r: Self) {
    }
}

/// Builds an error of type `E` from a position and a kind.
pub fn make_error<I, E: ParseError<I>>(input: I, kind: ErrorKind) -> (r: E)
    ensures
        E::is_from_error_kind(input, kind, r),
{
    E::from_error_kind(input, kind)
}

/// Extends `other` with a position and a kind.
pub fn append_error<I, E: ParseError<I>>(input: I, kind: ErrorKind, other: E) -> (r: E)
    ensures
        E::is_append(input, kind, other, r),
{
    E::append(input, kind, other)
}

/// One entry of a `VerboseError`.
#[derive(Clone, Debug, PartialEq)]
pub enum VerboseErrorKind {
    /// A static label attached by `context`.
    Context(&'static str),
    /// An expected character.
    Char(char),
    /// The kind of a failing parser.
    Nom(ErrorKind),
}

/// The accumulating representation: every position and kind or label,
/// innermost first.
#[derive(Clone, Debug, PartialEq)]
pub struct VerboseError<I> {
    pub errors: Vec<(I, VerboseErrorKind)>,
}

impl<I> ParseError<I> for VerboseError<I> {
    open spec fn is_from_error_kind(input: I, kind: ErrorKind, e: Self) -> bool {
        e.errors@ == seq![(input, VerboseErrorKind::Nom(kind))]
    }

    open spec fn is_append(input: I, kind: ErrorKind, other: Self, e: Self) -> bool {
        e.errors@ == other.errors@.push((input, VerboseErrorKind::Nom(kind)))
    }

    open spec fn is_from_char(input: I, c: char, e: Self) -> bool {
        e.errors@ == seq![(input, VerboseErrorKind::Char(c))]
    }

    open spec fn is_or(a: Self, other: Self, e: Self) -> bool {
        e.errors@ == other.errors@
    }

    open spec fn is_add_context(input: I, ctx: &'static str, other: Self, e: Self) -> bool {
        e.errors@ == other.errors@.push((input, VerboseErrorKind::Context(ctx)))
    }

    fn from_error_kind(input: I, kind: ErrorKind) -> (r: Self) {
        let mut errors = Vec::new();
        errors.push((input, VerboseErrorKind::Nom(kind)));
        VerboseError { errors }
    }

    fn append(input: I, kind: ErrorKind, other: Self) -> (r: Self) {
        let mut other = other;
        other.errors.push((input, VerboseErrorKind::Nom(kind)));
        other
    }

    fn from_char(input: I, c: char) -> (r: Self) {
        let mut errors = Vec::new();
        errors.push((input, VerboseErrorKind::Char(c)));
        VerboseError { errors }
    }

    fn or(self, other: Self) -> (r: Self) {
        other
    }

    fn add_context(input: I, ctx: &'static str, other: Self) -> (r: Self) {
        let mut other = other;
        other.errors.push((input, VerboseErrorKind::Context(ctx)));
        other
    }
}

/// What `context` returns at `i` when the wrapped parser returned `inner`:
/// success and `Incomplete` pass through, and any other failure becomes a
/// `Failure` carrying the label.
pub open spec fn context_outcome<I, O, E: ParseError<I>>(
    i: I,
    ctx: &'static str,
    inner: IResult<I, O, E>,
    r: IResult<I, O, E>,
) -> bool {
    match inner {
        Ok(o) => r == Ok::<(I, O), ErrMode<E>>(o),
        Err(ErrMode::Incomplete(n)) => r == Err::<(I, O), ErrMode<E>>(ErrMode::Incomplete(n)),
        Err(ErrMode::Error(e)) => match r {
            Err(ErrMode::Failure(e2)) => E::is_add_context(i, ctx, e, e2),
            _ => false,
        },
        Err(ErrMode::Failure(e)) => match r {
            Err(ErrMode::Failure(e2)) => E::is_add_context(i, ctx, e, e2),
            _ => false,
        },
    }
}

/// Runs `f` on `i`; a recoverable or unrecoverable failure becomes an
/// unrecoverable one labelled with `label` at `i`.
pub fn context<I: Copy, E: ParseError<I>, F, O>(label: &'static str, f: F, i: I) -> (r: IResult<
    I,
    O,
    E,
>) where F: Fn(I) -> IResult<I, O, E>
    requires
        f.requires((i,)),
    ensures
        exists|inner: IResult<I, O, E>| f.ensures((i,), inner) && context_outcome(i, label, inner, r),
{
    let inner = f(i);
    let r = match inner {
        Ok(o) => Ok(o),
        Err(ErrMode::Incomplete(n)) => Err(ErrMode::Incomplete(n)),
        Err(ErrMode::Error(e)) => Err(ErrMode::Failure(E::add_context(i, label, e))),
        Err(ErrMode::Failure(e)) => Err(ErrMode::Failure(E::add_context(i, label, e))),
    };
    assert(f.ensures((i,), inner) && context_outcome(i, label, inner, r));
    r
}

} // verus!
