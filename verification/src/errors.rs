//! How a failed parse is reported.
//!
//! A rule that fails names the place where it gave up and the elementary
//! condition that failed there; rules around it may add what they were
//! attempting. The rules are generic over the value that carries this: any
//! type that implements [`ParseError`]. [`SimpleError`] keeps only the
//! innermost place and condition; [`VerboseError`] keeps the whole trail.

use vstd::prelude::*;
use crate::tokens::TokenInfo;

verus! {

/// The elementary condition that a failure reports.
#[derive(Clone, Copy, Debug, PartialEq, Eq, Structural)]
pub enum ErrorKind {
    /// A token was required and the stream was exhausted.
    Eof,
    /// The next token did not satisfy what the rule asked of it.
    Verify,
    /// A rule that has to match at least once did not match at all.
    Many1,
}

/// What one entry of a failure's trail says.
pub enum Label {
    /// An elementary condition.
    Kind(ErrorKind),
    /// The description of what an enclosing rule was attempting.
    Context(Seq<char>),
}

/// An entry that an enclosing rule added to a failure: `at` tokens of the
/// rule's input precede the place it speaks of.
pub struct Frame {
    pub at: nat,
    pub label: Label,
}

/// A failure as the grammar defines it, apart from any error type: the
/// elementary condition `kind`, met after `at` tokens of the rule's input,
/// and the entries that enclosing rules added, innermost first.
pub struct Failure {
    pub at: nat,
    pub kind: ErrorKind,
    pub outer: Seq<Frame>,
}

impl Failure {
    /// The failure of a single token match after `at` tokens.
    pub open spec fn bare(at: nat, kind: ErrorKind) -> Failure {
        Failure { at, kind, outer: Seq::empty() }
    }

    /// This failure with one more entry around it.
    pub open spec fn within(self, frame: Frame) -> Failure {
        Failure { at: self.at, kind: self.kind, outer: self.outer.push(frame) }
    }
}

/// The capability to build error values, which every rule is generic over.
///
/// The three spec functions say what each construction yields, over the
/// error's view; an implementation chooses how much of a failure it keeps.
pub trait ParseError<'a>: Sized + View {
    /// The view of an error made from an elementary condition met where
    /// `rest` is what remains of the input.
    spec fn from_kind(rest: Seq<TokenInfo<'a>>, kind: ErrorKind) -> Self::V;

    /// The view of `inner` after an enclosing rule, which started where
    /// `rest` remained, added its own condition.
    spec fn appended(rest: Seq<TokenInfo<'a>>, kind: ErrorKind, inner: Self::V) -> Self::V;

    /// The view of `inner` after an enclosing rule, which started where
    /// `rest` remained, added a description of what it was attempting.
    spec fn in_context(rest: Seq<TokenInfo<'a>>, ctx: Seq<char>, inner: Self::V) -> Self::V;

    /// Makes an error from the remaining input and an elementary condition.
    fn from_error_kind(input: &'a [TokenInfo<'a>], kind: ErrorKind) -> (e: Self)
        ensures
            e@ == Self::from_kind(input@, kind),
    ;

    /// Adds an enclosing rule's condition to an existing error.
    fn append(input: &'a [TokenInfo<'a>], kind: ErrorKind, other: Self) -> (e: Self)
        ensures
            e@ == Self::appended(input@, kind, other@),
    ;

    /// Adds a description of what an enclosing rule was attempting to an
    /// existing error.
    fn add_context(input: &'a [TokenInfo<'a>], ctx: &'static str, other: Self) -> (e: Self)
        ensures
            e@ == Self::in_context(input@, ctx@, other@),
    ;
}

/// `inner` after the entries of `outer` were added to it in order, each at
/// its place in `input`.
pub open spec fn wrap<'a, E: ParseError<'a>>(
    input: Seq<TokenInfo<'a>>,
    inner: E::V,
    outer: Seq<Frame>,
) -> E::V
    decreases outer.len(),
{
    if outer.len() == 0 {
        inner
    } else {
        let frame = outer.last();
        let below = wrap::<E>(input, inner, outer.drop_last());
        match frame.label {
            Label::Kind(kind) => E::appended(input.skip(frame.at as int), kind, below),
            Label::Context(ctx) => E::in_context(input.skip(frame.at as int), ctx, below),
        }
    }
}

/// The view of the error of type `E` that reports `failure` on `input`.
pub open spec fn raise<'a, E: ParseError<'a>>(input: Seq<TokenInfo<'a>>, failure: Failure) -> E::V {
    wrap::<E>(input, E::from_kind(input.skip(failure.at as int), failure.kind), failure.outer)
}

/// The error that keeps the place and the condition of the innermost
/// failure, and nothing of what enclosing rules add.
#[derive(Clone, Copy, Debug, PartialEq, Eq)]
pub struct SimpleError<'a> {
    /// What remained of the input where the failure occurred.
    pub input: &'a [TokenInfo<'a>],
    pub kind: ErrorKind,
}

/// The view of a [`SimpleError`].
pub struct SimpleFailure<'a> {
    pub rest: Seq<TokenInfo<'a>>,
    pub kind: ErrorKind,
}

impl<'a> View for SimpleError<'a> {
    type V = SimpleFailure<'a>;

    open spec fn view(&self) -> SimpleFailure<'a> {
        SimpleFailure { rest: self.input@, kind: self.kind }
    }
}

impl<'a> ParseError<'a> for SimpleError<'a> {
    open spec fn from_kind(rest: Seq<TokenInfo<'a>>, kind: ErrorKind) -> SimpleFailure<'a> {
        SimpleFailure { rest, kind }
    }

    open spec fn appended(rest: Seq<TokenInfo<'a>>, kind: ErrorKind, inner: SimpleFailure<'a>)
        -> SimpleFailure<'a> {
        inner
    }

    open spec fn in_context(rest: Seq<TokenInfo<'a>>, ctx: Seq<char>, inner: SimpleFailure<'a>)
        -> SimpleFailure<'a> {
        inner
    }

    fn from_error_kind(input: &'a [TokenInfo<'a>], kind: ErrorKind) -> (e: Self) {
        SimpleError { input, kind }
    }

    fn append(input: &'a [TokenInfo<'a>], kind: ErrorKind, other: Self) -> (e: Self) {
        other
    }

    fn add_context(input: &'a [TokenInfo<'a>], ctx: &'static str, other: Self) -> (e: Self) {
        other
    }
}

/// What one entry of a [`VerboseError`] says.
#[derive(Clone, Copy, Debug, PartialEq, Eq)]
pub enum VerboseErrorKind {
    /// The description of what an enclosing rule was attempting.
    Context(&'static str),
    /// An elementary condition.
    Kind(ErrorKind),
}

impl View for VerboseErrorKind {
    type V = Label;

    open spec fn view(&self) -> Label {
        match *self {
            VerboseErrorKind::Context(ctx) => Label::Context(ctx@),
            VerboseErrorKind::Kind(kind) => Label::Kind(kind),
        }
    }
}

/// The error that keeps the whole trail of a failure: the innermost
/// condition first, then what each enclosing rule added, each with what
/// remained of the input at its place.
#[derive(Clone, Debug, PartialEq, Eq)]
pub struct VerboseError<'a> {
    pub errors: Vec<(&'a [TokenInfo<'a>], VerboseErrorKind)>,
}

impl<'a> View for VerboseError<'a> {
    type V = Seq<(Seq<TokenInfo<'a>>, Label)>;

    open spec fn view(&self) -> Seq<(Seq<TokenInfo<'a>>, Label)> {
        self.errors@.map_values(|entry: (&'a [TokenInfo<'a>], VerboseErrorKind)| (entry.0@, entry.1@))
    }
}

impl<'a> ParseError<'a> for VerboseError<'a> {
    open spec fn from_kind(rest: Seq<TokenInfo<'a>>, kind: ErrorKind)
        -> Seq<(Seq<TokenInfo<'a>>, Label)> {
        seq![(rest, Label::Kind(kind))]
    }

    open spec fn appended(
        rest: Seq<TokenInfo<'a>>,
        kind: ErrorKind,
        inner: Seq<(Seq<TokenInfo<'a>>, Label)>,
    ) -> Seq<(Seq<TokenInfo<'a>>, Label)> {
        inner.push((rest, Label::Kind(kind)))
    }

    open spec fn in_context(
        rest: Seq<TokenInfo<'a>>,
        ctx: Seq<char>,
        inner: Seq<(Seq<TokenInfo<'a>>, Label)>,
    ) -> Seq<(Seq<TokenInfo<'a>>, Label)> {
        inner.push((rest, Label::Context(ctx)))
    }

    fn from_error_kind(input: &'a [TokenInfo<'a>], kind: ErrorKind) -> (e: Self) {
        let mut errors: Vec<(&'a [TokenInfo<'a>], VerboseErrorKind)> = Vec::new();
        errors.push((input, VerboseErrorKind::Kind(kind)));
        let e = VerboseError { errors };
        assert(e@ =~= Self::from_kind(input@, kind));
        e
    }

    fn append(input: &'a [TokenInfo<'a>], kind: ErrorKind, other: Self) -> (e: Self) {
        let mut errors = other.errors;
        errors.push((input, VerboseErrorKind::Kind(kind)));
        let e = VerboseError { errors };
        assert(e@ =~= Self::appended(input@, kind, other@));
        e
    }

    fn add_context(input: &'a [TokenInfo<'a>], ctx: &'static str, other: Self) -> (e: Self) {
        let mut errors = other.errors;
        errors.push((input, VerboseErrorKind::Context(ctx)));
        let e = VerboseError { errors };
        assert(e@ =~= Self::in_context(input@, ctx@, other@));
        e
    }
}

} // verus!
