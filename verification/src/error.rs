//! The errors of parsing and of lowering.

use crate::operator::BinaryOperator;
use vstd::prelude::*;

verus! {

/// What the parser missed or could not read.
#[derive(Clone, Copy, Debug, PartialEq, Eq, Structural)]
pub enum ParseErrorKind {
    /// A token that starts no literal, identifier or operator.
    MalformedAtom,
    /// The input ends where an expression is required.
    MissingExpression,
    /// The keyword `if` is required.
    MissingIf,
    /// The keyword `proc` is required.
    MissingProc,
    /// The keyword `declare` is required.
    MissingDeclare,
    /// The keyword `in` is required.
    MissingIn,
    /// A parenthesised list is required.
    MissingParentheses,
    /// A clause must stand in square brackets.
    MissingClauseBrackets,
    /// An identifier is required.
    MissingIdentifier,
    /// A colon is required before a type.
    MissingColon,
    /// No type could be read where one is required.
    MalformedType,
    /// Tokens are left over behind a complete form.
    UnexpectedToken,
}

/// A parse failure: what went wrong, and where.
///
/// The location leads to the offending token: its first index counts
/// token trees in the input, each further index counts inside the group
/// that the index before it selects. The last index equals the length of
/// its sequence where the input ended too early.
#[derive(Debug, PartialEq, Eq)]
pub struct ParseError {
    pub kind: ParseErrorKind,
    pub location: Vec<usize>,
}

/// The mathematical value of a [`ParseError`].
pub ghost struct ParseErrorView {
    pub kind: ParseErrorKind,
    pub location: Seq<int>,
}

/// A sequence of indices as integers.
pub open spec fn indices(location: Seq<usize>) -> Seq<int> {
    Seq::new(location.len(), |i: int| location[i] as int)
}

/// The failure of kind `kind` at index `pos` of the sequence at hand.
pub open spec fn failure(kind: ParseErrorKind, pos: int) -> ParseErrorView {
    ParseErrorView { kind, location: seq![pos] }
}

impl ParseErrorView {
    /// The same failure, seen from outside the group at index `pos`.
    pub open spec fn within(self, pos: int) -> ParseErrorView {
        ParseErrorView { kind: self.kind, location: seq![pos] + self.location }
    }
}

impl View for ParseError {
    type V = ParseErrorView;

    open spec fn view(&self) -> ParseErrorView {
        ParseErrorView { kind: self.kind, location: indices(self.location@) }
    }
}

/// The description of each kind of parse failure.
pub open spec fn kind_message(kind: ParseErrorKind) -> Seq<char> {
    match kind {
        ParseErrorKind::MalformedAtom => "failed to parse atom"@,
        ParseErrorKind::MissingExpression => "missing expression"@,
        ParseErrorKind::MissingIf => "missing keyword `if`"@,
        ParseErrorKind::MissingProc => "missing keyword `proc`"@,
        ParseErrorKind::MissingDeclare => "missing keyword `declare`"@,
        ParseErrorKind::MissingIn => "missing keyword `in`"@,
        ParseErrorKind::MissingParentheses => "missing parentheses"@,
        ParseErrorKind::MissingClauseBrackets => "missing clause brackets"@,
        ParseErrorKind::MissingIdentifier => "missing identifier"@,
        ParseErrorKind::MissingColon => "missing `:`"@,
        ParseErrorKind::MalformedType => "failed to parse type"@,
        ParseErrorKind::UnexpectedToken => "unexpected token"@,
    }
}

impl Clone for ParseError {
    fn clone(&self) -> (out: Self)
        ensures
            out@ == self@,
    {
        let location = self.location.clone();
        assert(location@ =~= self.location@);
        ParseError { kind: self.kind, location }
    }
}

impl ParseError {
    /// The failure of kind `kind` at index `pos`.
    pub fn at(kind: ParseErrorKind, pos: usize) -> (error: ParseError)
        ensures
            error@ == failure(kind, pos as int),
    {
        let mut location: Vec<usize> = Vec::new();
        location.push(pos);
        assert(indices(location@) =~= seq![pos as int]);
        ParseError { kind, location }
    }

    /// The same failure, seen from outside the group at index `pos`.
    pub fn within(self, pos: usize) -> (error: ParseError)
        ensures
            error@ == self@.within(pos as int),
    {
        let mut location = self.location;
        location.insert(0, pos);
        assert(indices(location@) =~= seq![pos as int] + indices(self.location@));
        ParseError { kind: self.kind, location }
    }

    /// A description of what went wrong.
    pub fn message(&self) -> (text: String)
        ensures
            text@ == kind_message(self.kind),
    {
        match self.kind {
            ParseErrorKind::MalformedAtom => "failed to parse atom".to_owned(),
            ParseErrorKind::MissingExpression => "missing expression".to_owned(),
            ParseErrorKind::MissingIf => "missing keyword `if`".to_owned(),
            ParseErrorKind::MissingProc => "missing keyword `proc`".to_owned(),
            ParseErrorKind::MissingDeclare => "missing keyword `declare`".to_owned(),
            ParseErrorKind::MissingIn => "missing keyword `in`".to_owned(),
            ParseErrorKind::MissingParentheses => "missing parentheses".to_owned(),
            ParseErrorKind::MissingClauseBrackets => "missing clause brackets".to_owned(),
            ParseErrorKind::MissingIdentifier => "missing identifier".to_owned(),
            ParseErrorKind::MissingColon => "missing `:`".to_owned(),
            ParseErrorKind::MalformedType => "failed to parse type".to_owned(),
            ParseErrorKind::UnexpectedToken => "unexpected token".to_owned(),
        }
    }
}

/// A binary operator applied to a number of arguments other than two.
///
/// The location leads to the offending application from the root of the
/// expression: each index selects a child, counted as the children are
/// lowered (see [`crate::lower`]).
#[derive(Debug, PartialEq, Eq)]
pub struct ArityError {
    pub operator: BinaryOperator,
    pub found: usize,
    pub location: Vec<usize>,
}

/// The mathematical value of an [`ArityError`].
pub ghost struct ArityErrorView {
    pub operator: BinaryOperator,
    pub found: int,
    pub location: Seq<int>,
}

impl ArityErrorView {
    /// The same failure, seen from the parent whose child number `index`
    /// holds it.
    pub open spec fn within(self, index: int) -> ArityErrorView {
        ArityErrorView {
            operator: self.operator,
            found: self.found,
            location: seq![index] + self.location,
        }
    }
}

impl View for ArityError {
    type V = ArityErrorView;

    open spec fn view(&self) -> ArityErrorView {
        ArityErrorView {
            operator: self.operator,
            found: self.found as int,
            location: indices(self.location@),
        }
    }
}

impl Clone for ArityError {
    fn clone(&self) -> (out: Self)
        ensures
            out@ == self@,
    {
        let location = self.location.clone();
        assert(location@ =~= self.location@);
        ArityError { operator: self.operator, found: self.found, location }
    }
}

impl ArityError {
    /// The failure at the application at hand.
    pub fn here(operator: BinaryOperator, found: usize) -> (error: ArityError)
        ensures
            error@ == (ArityErrorView { operator, found: found as int, location: Seq::empty() }),
    {
        let location: Vec<usize> = Vec::new();
        assert(indices(location@) =~= Seq::<int>::empty());
        ArityError { operator, found, location }
    }

    /// The same failure, seen from the parent whose child number `index`
    /// holds it.
    pub fn within(self, index: usize) -> (error: ArityError)
        ensures
            error@ == self@.within(index as int),
    {
        let mut location = self.location;
        location.insert(0, index);
        assert(indices(location@) =~= seq![index as int] + indices(self.location@));
        ArityError { operator: self.operator, found: self.found, location }
    }

    /// A description of what went wrong.
    pub fn message(&self) -> (text: String)
        ensures
            text@ == "Arity Error"@,
    {
        "Arity Error".to_owned()
    }
}

/// Why a source could not be turned into code.
#[derive(Debug, PartialEq, Eq)]
pub enum InterpError {
    /// The tokens are no expression.
    Parse(ParseError),
    /// The expression applies an operator to the wrong number of
    /// arguments.
    Arity(ArityError),
}

impl Clone for InterpError {
    fn clone(&self) -> (out: Self)
        ensures
            out@ == self@,
    {
        match self {
            InterpError::Parse(error) => InterpError::Parse(error.clone()),
            InterpError::Arity(error) => InterpError::Arity(error.clone()),
        }
    }
}

/// The mathematical value of an [`InterpError`].
pub ghost enum InterpErrorView {
    Parse(ParseErrorView),
    Arity(ArityErrorView),
}

impl View for InterpError {
    type V = InterpErrorView;

    open spec fn view(&self) -> InterpErrorView {
        match self {
            InterpError::Parse(e) => InterpErrorView::Parse(e@),
            InterpError::Arity(e) => InterpErrorView::Arity(e@),
        }
    }
}

} // verus!
