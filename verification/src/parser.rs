//! The recursive-descent parser: token trees in, a syntax tree out.
//!
//! Every function here computes one function of [`crate::grammar`]. A
//! position is an index into the token sequence at hand; repetition
//! never moves past an item that failed to parse.

use crate::classify::{classify_literal, is_identifier, measure_type, LiteralKind};
use crate::error::{ParseError, ParseErrorKind, ParseErrorView};
use crate::grammar::{
    annotation_at, application, atom_at, braced, classified_annotation, classified_atom,
    classified_parameter, clause_at, clause_run, closing_expr, conditional, declaration,
    desugared, expr_at, expr_run, expr_width, group_at, identifier_at, literal_kind_at,
    parameter_at, parameter_run, parsed, procedure, punct_at, word_at,
};
use crate::laws::law_parsed_is_well_formed;
use crate::operator::{match_double_operator, match_operator, peek_op};
use crate::syntax::{
    clauses_view, exprs_view, lemma_application_view, lemma_exprs_view_push,
    lemma_procedure_view, well_formed, Clause, ClauseView, Expr, ExprView,
};
use crate::text::text_is;
use crate::token::{
    clone_range, lemma_group_view, optional_tokens_view, tokens_view, Delimiter, Token,
    TokenView,
};
use crate::vecs::reversed;
use vstd::prelude::*;

verus! {

/// The outcome of a parser agrees with what the grammar says.
pub open spec fn agrees(
    outcome: Result<Expr, ParseError>,
    expected: Result<ExprView, ParseErrorView>,
) -> bool {
    match outcome {
        Ok(expr) => expected == Ok::<ExprView, ParseErrorView>(expr@),
        Err(error) => expected == Err::<ExprView, ParseErrorView>(error@),
    }
}

/// The outcome of the clause parser agrees with what the grammar says.
pub open spec fn clause_agrees(
    outcome: Result<Clause, ParseError>,
    expected: Result<ClauseView, ParseErrorView>,
) -> bool {
    match outcome {
        Ok(clause) => expected == Ok::<ClauseView, ParseErrorView>(clause@),
        Err(error) => expected == Err::<ClauseView, ParseErrorView>(error@),
    }
}

fn has_word(tokens: &Vec<Token>, pos: usize, word: &str) -> (found: bool)
    ensures
        found == word_at(tokens_view(tokens@), pos as int, word@),
        found ==> pos < tokens@.len(),
{
    if pos >= tokens.len() {
        return false;
    }
    match &tokens[pos] {
        Token::Ident { text } => text_is(text, word),
        _ => false,
    }
}

fn has_punct(tokens: &Vec<Token>, pos: usize, ch: char) -> (found: bool)
    ensures
        found == punct_at(tokens_view(tokens@), pos as int, ch),
        found ==> pos < tokens@.len(),
{
    if pos >= tokens.len() {
        return false;
    }
    match &tokens[pos] {
        Token::Punct { ch: found, .. } => *found == ch,
        _ => false,
    }
}

fn group_contents<'a>(tokens: &'a Vec<Token>, pos: usize, delimiter: Delimiter) -> (contents:
    Option<&'a Vec<Token>>)
    ensures
        contents is Some == group_at(tokens_view(tokens@), pos as int, delimiter),
        contents matches Some(inner) ==> {
            &&& pos < tokens@.len()
            &&& tokens@[pos as int] is Group
            &&& *inner == tokens@[pos as int]->tokens
            &&& tokens_view(inner@) == tokens_view(tokens@)[pos as int]->tokens
        },
{
    if pos >= tokens.len() {
        return None;
    }
    match &tokens[pos] {
        Token::Group { delimiter: found, tokens: inner } => {
            proof {
                lemma_group_view(tokens@[pos as int]);
            }
            if *found == delimiter {
                Some(inner)
            } else {
                None
            }
        },
        _ => None,
    }
}

fn word_of(tokens: &Vec<Token>, pos: usize) -> (name: Option<String>)
    ensures
        name is Some == (pos < tokens@.len() && tokens_view(tokens@)[pos as int] is Ident),
        name matches Some(text) ==> text@ == tokens_view(tokens@)[pos as int]->Ident_text,
{
    if pos >= tokens.len() {
        return None;
    }
    match &tokens[pos] {
        Token::Ident { text } => Some(text.clone()),
        _ => None,
    }
}

/// The number of token trees that the expression at `pos` takes up.
pub fn width_at(tokens: &Vec<Token>, pos: usize) -> (width: usize)
    ensures
        width == expr_width(tokens_view(tokens@), pos as int),
        1 <= width <= 2,
        width == 2 ==> pos + 2 <= tokens@.len(),
{
    if match_double_operator(tokens, pos).is_some() {
        2
    } else {
        1
    }
}

/// Builds the atom at `pos` from the kind of literal that the token
/// there is and from whether it is an identifier.
pub fn classified_atom_at(
    tokens: &Vec<Token>,
    pos: usize,
    kind: LiteralKind,
    identifier: bool,
) -> (outcome: Result<Expr, ParseError>)
    ensures
        agrees(outcome, classified_atom(tokens_view(tokens@), pos as int, kind, identifier)),
{
    if pos >= tokens.len() {
        return Err(ParseError::at(ParseErrorKind::MissingExpression, pos));
    }
    match &tokens[pos] {
        Token::Literal { text } => match kind {
            LiteralKind::Str => Ok(Expr::StringLiteral { text: text.clone() }),
            LiteralKind::Int => Ok(Expr::NumberLiteral { text: text.clone() }),
            LiteralKind::Other => Err(ParseError::at(ParseErrorKind::MalformedAtom, pos)),
        },
        Token::Ident { text } => {
            if text_is(text, "true") {
                Ok(Expr::BoolLiteral { value: true })
            } else if text_is(text, "false") {
                Ok(Expr::BoolLiteral { value: false })
            } else if identifier {
                Ok(Expr::Identifier { name: text.clone(), annotation: None })
            } else {
                Err(ParseError::at(ParseErrorKind::MalformedAtom, pos))
            }
        },
        Token::Punct { .. } => {
            if peek_op(tokens, pos) {
                let operator = match_operator(tokens, pos).unwrap();
                Ok(Expr::OperatorLiteral { operator })
            } else {
                Err(ParseError::at(ParseErrorKind::MalformedAtom, pos))
            }
        },
        Token::Group { .. } => Err(ParseError::at(ParseErrorKind::MalformedAtom, pos)),
    }
}

fn literal_kind_of(tokens: &Vec<Token>, pos: usize) -> (kind: LiteralKind)
    ensures
        kind == literal_kind_at(tokens_view(tokens@), pos as int),
{
    if pos >= tokens.len() {
        return LiteralKind::Other;
    }
    match &tokens[pos] {
        Token::Literal { text } => classify_literal(text.as_str()),
        _ => LiteralKind::Other,
    }
}

fn has_identifier(tokens: &Vec<Token>, pos: usize) -> (found: bool)
    ensures
        found == identifier_at(tokens_view(tokens@), pos as int),
{
    if pos >= tokens.len() {
        return false;
    }
    match &tokens[pos] {
        Token::Ident { text } => is_identifier(text.as_str()),
        _ => false,
    }
}

/// Parses the atom at `pos`: a string literal, an integer literal, a
/// boolean, an identifier or an operator, tried in this order.
pub fn parse_atoms(tokens: &Vec<Token>, pos: usize) -> (outcome: Result<Expr, ParseError>)
    ensures
        agrees(outcome, atom_at(tokens_view(tokens@), pos as int)),
{
    let kind = literal_kind_of(tokens, pos);
    let identifier = has_identifier(tokens, pos);
    classified_atom_at(tokens, pos, kind, identifier)
}

/// Builds the parameter at `pos` from whether its word is an identifier
/// and from how far its type reaches.
pub fn classified_parameter_at(
    tokens: &Vec<Token>,
    pos: usize,
    identifier: bool,
    width: Option<usize>,
) -> (outcome: Result<Expr, ParseError>)
    ensures
        agrees(
            outcome,
            classified_parameter(
                tokens_view(tokens@),
                pos as int,
                identifier,
                match width {
                    Some(k) => Some(k as int),
                    None => None,
                },
            ),
        ),
{
    match group_contents(tokens, pos, Delimiter::Bracket) {
        Some(inner) => {
            let name = match word_of(inner, 0) {
                Some(name) => name,
                None => {
                    return Err(ParseError::at(ParseErrorKind::MissingIdentifier, 0).within(pos));
                },
            };
            if !identifier {
                return Err(ParseError::at(ParseErrorKind::MissingIdentifier, 0).within(pos));
            }
            if !has_punct(inner, 1, ':') {
                return Err(ParseError::at(ParseErrorKind::MissingColon, 1).within(pos));
            }
            let len = inner.len();
            match width {
                Some(width) => {
                    if width > len - 2 {
                        Err(ParseError::at(ParseErrorKind::MalformedType, 2).within(pos))
                    } else if 2 + width < len {
                        Err(
                            ParseError::at(ParseErrorKind::UnexpectedToken, 2 + width).within(
                                pos,
                            ),
                        )
                    } else {
                        let annotation = clone_range(inner, 2, 2 + width);
                        Ok(Expr::Identifier { name, annotation: Some(annotation) })
                    }
                },
                None => Err(ParseError::at(ParseErrorKind::MalformedType, 2).within(pos)),
            }
        },
        None => match word_of(tokens, pos) {
            Some(name) => {
                if identifier {
                    Ok(Expr::Identifier { name, annotation: None })
                } else {
                    Err(ParseError::at(ParseErrorKind::MissingIdentifier, pos))
                }
            },
            None => Err(ParseError::at(ParseErrorKind::MissingIdentifier, pos)),
        },
    }
}

/// Parses the parameter at `pos`: a bare identifier, or
/// `[identifier : type]`.
pub fn parse_optional_annotation(tokens: &Vec<Token>, pos: usize) -> (outcome: Result<
    Expr,
    ParseError,
>)
    ensures
        agrees(outcome, parameter_at(tokens_view(tokens@), pos as int)),
{
    match group_contents(tokens, pos, Delimiter::Bracket) {
        Some(inner) => {
            let identifier = has_identifier(inner, 0);
            let width = if identifier && has_punct(inner, 1, ':') {
                measure_type(inner, 2)
            } else {
                None
            };
            classified_parameter_at(tokens, pos, identifier, width)
        },
        None => {
            let identifier = has_identifier(tokens, pos);
            classified_parameter_at(tokens, pos, identifier, None)
        },
    }
}

/// The outcome of a repetition agrees with what the grammar says.
pub open spec fn run_agrees(
    run: (Vec<Expr>, usize, Option<ParseError>),
    expected: (Seq<ExprView>, int, Option<ParseErrorView>),
) -> bool {
    &&& exprs_view(run.0@) == expected.0
    &&& run.1 == expected.1
    &&& match run.2 {
        Some(error) => expected.2 == Some(error@),
        None => expected.2 is None,
    }
}

/// Parses parameters from `pos` on, as many as there are, and returns
/// them with the position where they stop and the failure that stopped
/// them, if it was not the end of the tokens.
pub fn parse_zero_or_more_compound(tokens: &Vec<Token>, pos: usize) -> (run: (
    Vec<Expr>,
    usize,
    Option<ParseError>,
))
    ensures
        run_agrees(run, parameter_run(tokens_view(tokens@), pos as int)),
{
    let ghost all = tokens_view(tokens@);
    let mut result: Vec<Expr> = Vec::new();
    let mut i: usize = pos;
    assert(exprs_view(result@) + parameter_run(all, pos as int).0 =~= parameter_run(
        all,
        pos as int,
    ).0);
    while i < tokens.len()
        invariant
            all == tokens_view(tokens@),
            parameter_run(all, pos as int).0 == exprs_view(result@) + parameter_run(
                all,
                i as int,
            ).0,
            parameter_run(all, pos as int).1 == parameter_run(all, i as int).1,
            parameter_run(all, pos as int).2 == parameter_run(all, i as int).2,
        decreases tokens.len() - i,
    {
        match parse_optional_annotation(tokens, i) {
            Ok(item) => {
                proof {
                    lemma_exprs_view_push(result@, item);
                    assert(exprs_view(result@).push(item@) + parameter_run(all, i + 1).0
                        =~= exprs_view(result@) + parameter_run(all, i as int).0);
                }
                result.push(item);
                i += 1;
            },
            Err(error) => {
                assert(exprs_view(result@) + Seq::<ExprView>::empty() =~= exprs_view(result@));
                return (result, i, Some(error));
            },
        }
    }
    assert(exprs_view(result@) + Seq::<ExprView>::empty() =~= exprs_view(result@));
    (result, i, None)
}

/// The outcome of reading an optional type agrees with what the grammar
/// says.
pub open spec fn annotation_agrees(
    outcome: Result<(Option<Vec<Token>>, usize), ParseError>,
    expected: Result<(Option<Seq<TokenView>>, int), ParseErrorView>,
) -> bool {
    match outcome {
        Ok((annotation, next)) => expected == Ok::<
            (Option<Seq<TokenView>>, int),
            ParseErrorView,
        >((optional_tokens_view(annotation), next as int)),
        Err(error) => expected == Err::<(Option<Seq<TokenView>>, int), ParseErrorView>(error@),
    }
}

/// Builds the optional `: type` at `pos` from how far the type behind
/// the colon reaches.
pub fn classified_annotation_at(tokens: &Vec<Token>, pos: usize, width: Option<usize>) -> (outcome:
    Result<(Option<Vec<Token>>, usize), ParseError>)
    ensures
        annotation_agrees(
            outcome,
            classified_annotation(
                tokens_view(tokens@),
                pos as int,
                match width {
                    Some(k) => Some(k as int),
                    None => None,
                },
            ),
        ),
        outcome matches Ok((_, next)) ==> (pos <= tokens@.len() ==> next <= tokens@.len()),
{
    let len = tokens.len();
    if has_punct(tokens, pos, ':') {
        assert(pos < len);
        match width {
            Some(width) => {
                if width > len - pos - 1 {
                    Err(ParseError::at(ParseErrorKind::MalformedType, pos + 1))
                } else {
                    let annotation = clone_range(tokens, pos + 1, pos + 1 + width);
                    Ok((Some(annotation), pos + 1 + width))
                }
            },
            None => Err(ParseError::at(ParseErrorKind::MalformedType, pos + 1)),
        }
    } else {
        Ok((None, pos))
    }
}

/// Parses the optional `: type` at `pos` and returns the tokens of the
/// type, if there is one, with the position behind it.
pub fn parse_type_annotation(tokens: &Vec<Token>, pos: usize) -> (outcome: Result<
    (Option<Vec<Token>>, usize),
    ParseError,
>)
    ensures
        annotation_agrees(outcome, annotation_at(tokens_view(tokens@), pos as int)),
        outcome matches Ok((_, next)) ==> (pos <= tokens@.len() ==> next <= tokens@.len()),
{
    let len = tokens.len();
    let width = if has_punct(tokens, pos, ':') {
        assert(pos < len);
        measure_type(tokens, pos + 1)
    } else {
        None
    };
    classified_annotation_at(tokens, pos, width)
}

/// Splits clauses into their names and their bindings, each in the order
/// of the clauses.
pub fn split_clauses(clauses: Vec<Clause>) -> (parts: (Vec<Expr>, Vec<Expr>))
    ensures
        exprs_view(parts.0@) == Seq::new(
            clauses@.len(),
            |i: int| clauses_view(clauses@)[i].name,
        ),
        exprs_view(parts.1@) == Seq::new(
            clauses@.len(),
            |i: int| clauses_view(clauses@)[i].binding,
        ),
{
    let ghost all = clauses@;
    let mut rest = reversed(clauses);
    let ghost backwards = rest@;
    let mut names: Vec<Expr> = Vec::new();
    let mut bindings: Vec<Expr> = Vec::new();
    while rest.len() > 0
        invariant
            backwards == all.reverse(),
            rest@.len() <= all.len(),
            rest@ == backwards.subrange(0, rest@.len() as int),
            names@.len() == all.len() - rest@.len(),
            bindings@.len() == names@.len(),
            forall|j: int| 0 <= j < names@.len() ==> names@[j] == all[j].name,
            forall|j: int| 0 <= j < bindings@.len() ==> bindings@[j] == all[j].binding,
        decreases rest.len(),
    {
        let ghost k = names@.len() as int;
        let clause = rest.pop().unwrap();
        assert(clause == backwards[all.len() - 1 - k]);
        assert(clause == all[k]);
        names.push(clause.name);
        bindings.push(clause.binding);
        assert(rest@ =~= backwards.subrange(0, rest@.len() as int));
    }
    assert(exprs_view(names@) =~= Seq::new(all.len(), |i: int| clauses_view(all)[i].name));
    assert(exprs_view(bindings@) =~= Seq::new(all.len(), |i: int| clauses_view(all)[i].binding));
    (names, bindings)
}

/// Builds the procedure applied to the bindings that a declaration
/// stands for.
pub fn desugar(clauses: Vec<Clause>, annotation: Option<Vec<Token>>, body: Expr) -> (expr: Expr)
    ensures
        expr@ == desugared(clauses_view(clauses@), optional_tokens_view(annotation), body@),
{
    let ghost views = clauses_view(clauses@);
    let (parameters, arguments) = split_clauses(clauses);
    let callee = Expr::Procedure {
        parameters,
        body: Box::new(body),
        return_annotation: annotation,
    };
    proof {
        lemma_procedure_view(callee);
    }
    let expr = Expr::Application { callee: Box::new(callee), arguments };
    proof {
        lemma_application_view(expr);
        assert(Seq::new(clauses@.len(), |i: int| views[i].name) =~= Seq::new(
            views.len(),
            |i: int| views[i].name,
        ));
        assert(Seq::new(clauses@.len(), |i: int| views[i].binding) =~= Seq::new(
            views.len(),
            |i: int| views[i].binding,
        ));
    }
    expr
}

impl Expr {
    /// Parses the expression at `pos`: a braced form, or else an atom.
    /// An expression that parses takes up `width_at(tokens, pos)` token
    /// trees.
    pub fn parse(tokens: &Vec<Token>, pos: usize) -> (outcome: Result<Expr, ParseError>)
        ensures
            agrees(outcome, expr_at(tokens_view(tokens@), pos as int)),
            outcome is Ok ==> pos < tokens@.len(),
        decreases tokens@, 0nat, 0nat,
    {
        match group_contents(tokens, pos, Delimiter::Brace) {
            Some(inner) => {
                proof {
                    assert(decreases_to!(tokens@ => tokens@[pos as int]));
                    assert(decreases_to!(tokens@[pos as int] => tokens@[pos as int]->tokens));
                }
                match parse_braced(inner) {
                    Ok(expr) => Ok(expr),
                    Err(error) => Err(error.within(pos)),
                }
            },
            None => parse_atoms(tokens, pos),
        }
    }
}

/// Parses the contents of a pair of braces: a conditional, a procedure or
/// a declaration where the first word says so, else an application.
pub fn parse_braced(tokens: &Vec<Token>) -> (outcome: Result<Expr, ParseError>)
    ensures
        agrees(outcome, braced(tokens_view(tokens@))),
    decreases tokens@, 3nat, 0nat,
{
    if has_word(tokens, 0, "if") {
        parse_if_expr(tokens)
    } else if has_word(tokens, 0, "proc") {
        parse_procedure(tokens)
    } else if has_word(tokens, 0, "declare") {
        parse_declare(tokens)
    } else {
        parse_application(tokens)
    }
}

/// Parses one expression at `pos` that must reach to the end of the
/// tokens.
pub fn parse_closing(tokens: &Vec<Token>, pos: usize) -> (outcome: Result<Expr, ParseError>)
    ensures
        agrees(outcome, closing_expr(tokens_view(tokens@), pos as int)),
    decreases tokens@, 1nat, 0nat,
{
    match Expr::parse(tokens, pos) {
        Err(error) => Err(error),
        Ok(body) => {
            let len = tokens.len();
            let width = width_at(tokens, pos);
            assert(pos + width <= len);
            let end = pos + width;
            if end < tokens.len() {
                Err(ParseError::at(ParseErrorKind::UnexpectedToken, end))
            } else {
                Ok(body)
            }
        },
    }
}

/// Parses `if guard then else`.
pub fn parse_if_expr(tokens: &Vec<Token>) -> (outcome: Result<Expr, ParseError>)
    ensures
        agrees(outcome, conditional(tokens_view(tokens@))),
    decreases tokens@, 2nat, 0nat,
{
    if !has_word(tokens, 0, "if") {
        return Err(ParseError::at(ParseErrorKind::MissingIf, 0));
    }
    let guard = match Expr::parse(tokens, 1) {
        Ok(expr) => expr,
        Err(error) => {
            return Err(error);
        },
    };
    let at_then: usize = 1 + width_at(tokens, 1);
    let then_branch = match Expr::parse(tokens, at_then) {
        Ok(expr) => expr,
        Err(error) => {
            return Err(error);
        },
    };
    let at_else: usize = at_then + width_at(tokens, at_then);
    let else_branch = match Expr::parse(tokens, at_else) {
        Ok(expr) => expr,
        Err(error) => {
            return Err(error);
        },
    };
    let end: usize = at_else + width_at(tokens, at_else);
    if end < tokens.len() {
        return Err(ParseError::at(ParseErrorKind::UnexpectedToken, end));
    }
    Ok(
        Expr::Conditional {
            guard: Box::new(guard),
            then_branch: Box::new(then_branch),
            else_branch: Box::new(else_branch),
        },
    )
}

/// Parses `proc (parameters) : type body`, the type being optional.
pub fn parse_procedure(tokens: &Vec<Token>) -> (outcome: Result<Expr, ParseError>)
    ensures
        agrees(outcome, procedure(tokens_view(tokens@))),
    decreases tokens@, 2nat, 0nat,
{
    if !has_word(tokens, 0, "proc") {
        return Err(ParseError::at(ParseErrorKind::MissingProc, 0));
    }
    let list = match group_contents(tokens, 1, Delimiter::Parenthesis) {
        Some(list) => list,
        None => {
            return Err(ParseError::at(ParseErrorKind::MissingParentheses, 1));
        },
    };
    let parameters = match parse_zero_or_more_compound(list, 0) {
        (_, _, Some(error)) => {
            return Err(error.within(1));
        },
        (parameters, _, None) => parameters,
    };
    let (annotation, at_body) = match parse_type_annotation(tokens, 2) {
        Ok(found) => found,
        Err(error) => {
            return Err(error);
        },
    };
    match parse_closing(tokens, at_body) {
        Err(error) => Err(error),
        Ok(body) => {
            let expr = Expr::Procedure {
                parameters,
                body: Box::new(body),
                return_annotation: annotation,
            };
            proof {
                lemma_procedure_view(expr);
            }
            Ok(expr)
        },
    }
}

impl Clause {
    /// Parses the clause at `pos`: `[name binding]`.
    pub fn parse(tokens: &Vec<Token>, pos: usize) -> (outcome: Result<Clause, ParseError>)
        ensures
            clause_agrees(outcome, clause_at(tokens_view(tokens@), pos as int)),
        decreases tokens@, 0nat, 0nat,
    {
        let inner = match group_contents(tokens, pos, Delimiter::Bracket) {
            Some(inner) => inner,
            None => {
                return Err(ParseError::at(ParseErrorKind::MissingClauseBrackets, pos));
            },
        };
        proof {
            assert(decreases_to!(tokens@ => tokens@[pos as int]));
            assert(decreases_to!(tokens@[pos as int] => tokens@[pos as int]->tokens));
        }
        let name = match parse_optional_annotation(inner, 0) {
            Ok(name) => name,
            Err(error) => {
                return Err(error.within(pos));
            },
        };
        match parse_closing(inner, 1) {
            Err(error) => Err(error.within(pos)),
            Ok(binding) => Ok(Clause { name, binding }),
        }
    }
}

/// Parses clauses from `pos` on, as many as there are, and returns them
/// with the position where they stop and the failure that stopped them,
/// if it was not the end of the tokens.
pub fn parse_zero_or_more_clauses(tokens: &Vec<Token>, pos: usize) -> (run: (
    Vec<Clause>,
    usize,
    Option<ParseError>,
))
    ensures
        clauses_view(run.0@) == clause_run(tokens_view(tokens@), pos as int).0,
        run.1 == clause_run(tokens_view(tokens@), pos as int).1,
        match run.2 {
            Some(error) => clause_run(tokens_view(tokens@), pos as int).2 == Some(error@),
            None => clause_run(tokens_view(tokens@), pos as int).2 is None,
        },
    decreases tokens@, 1nat, 0nat,
{
    let ghost all = tokens_view(tokens@);
    let mut result: Vec<Clause> = Vec::new();
    let mut i: usize = pos;
    assert(clauses_view(result@) + clause_run(all, pos as int).0 =~= clause_run(
        all,
        pos as int,
    ).0);
    while i < tokens.len()
        invariant
            all == tokens_view(tokens@),
            clause_run(all, pos as int).0 == clauses_view(result@) + clause_run(all, i as int).0,
            clause_run(all, pos as int).1 == clause_run(all, i as int).1,
            clause_run(all, pos as int).2 == clause_run(all, i as int).2,
        decreases tokens.len() - i,
    {
        match Clause::parse(tokens, i) {
            Ok(item) => {
                proof {
                    assert(clauses_view(result@.push(item)) =~= clauses_view(result@).push(
                        item@,
                    ));
                    assert(clauses_view(result@).push(item@) + clause_run(all, i + 1).0
                        =~= clauses_view(result@) + clause_run(all, i as int).0);
                }
                result.push(item);
                i += 1;
            },
            Err(error) => {
                assert(clauses_view(result@) + Seq::<ClauseView>::empty() =~= clauses_view(
                    result@,
                ));
                return (result, i, Some(error));
            },
        }
    }
    assert(clauses_view(result@) + Seq::<ClauseView>::empty() =~= clauses_view(result@));
    (result, i, None)
}

/// Parses `declare (clauses) : type in body`, the type being optional,
/// into the procedure of the names applied to the bindings.
pub fn parse_declare(tokens: &Vec<Token>) -> (outcome: Result<Expr, ParseError>)
    ensures
        agrees(outcome, declaration(tokens_view(tokens@))),
    decreases tokens@, 2nat, 0nat,
{
    if !has_word(tokens, 0, "declare") {
        return Err(ParseError::at(ParseErrorKind::MissingDeclare, 0));
    }
    let list = match group_contents(tokens, 1, Delimiter::Parenthesis) {
        Some(list) => list,
        None => {
            return Err(ParseError::at(ParseErrorKind::MissingParentheses, 1));
        },
    };
    proof {
        assert(decreases_to!(tokens@ => tokens@[1]));
        assert(decreases_to!(tokens@[1] => tokens@[1]->tokens));
    }
    let clauses = match parse_zero_or_more_clauses(list, 0) {
        (_, _, Some(error)) => {
            return Err(error.within(1));
        },
        (clauses, _, None) => clauses,
    };
    let (annotation, at_in) = match parse_type_annotation(tokens, 2) {
        Ok(found) => found,
        Err(error) => {
            return Err(error);
        },
    };
    if !has_word(tokens, at_in, "in") {
        return Err(ParseError::at(ParseErrorKind::MissingIn, at_in));
    }
    let len = tokens.len();
    assert(at_in < len);
    match parse_closing(tokens, at_in + 1) {
        Err(error) => Err(error),
        Ok(body) => Ok(desugar(clauses, annotation, body)),
    }
}

/// Parses expressions from `pos` on, as many as there are, and returns
/// them with the position where they stop and the failure that stopped
/// them, if it was not the end of the tokens.
pub fn parse_zero_or_more(tokens: &Vec<Token>, pos: usize) -> (run: (
    Vec<Expr>,
    usize,
    Option<ParseError>,
))
    ensures
        run_agrees(run, expr_run(tokens_view(tokens@), pos as int)),
    decreases tokens@, 1nat, 0nat,
{
    let ghost all = tokens_view(tokens@);
    let mut result: Vec<Expr> = Vec::new();
    let mut i: usize = pos;
    assert(exprs_view(result@) + expr_run(all, pos as int).0 =~= expr_run(all, pos as int).0);
    while i < tokens.len()
        invariant
            all == tokens_view(tokens@),
            expr_run(all, pos as int).0 == exprs_view(result@) + expr_run(all, i as int).0,
            expr_run(all, pos as int).1 == expr_run(all, i as int).1,
            expr_run(all, pos as int).2 == expr_run(all, i as int).2,
        decreases tokens.len() - i,
    {
        match Expr::parse(tokens, i) {
            Ok(item) => {
                let width = width_at(tokens, i);
                proof {
                    lemma_exprs_view_push(result@, item);
                    assert(exprs_view(result@).push(item@) + expr_run(all, i + width).0
                        =~= exprs_view(result@) + expr_run(all, i as int).0);
                }
                result.push(item);
                i += width;
            },
            Err(error) => {
                assert(exprs_view(result@) + Seq::<ExprView>::empty() =~= exprs_view(result@));
                return (result, i, Some(error));
            },
        }
    }
    assert(exprs_view(result@) + Seq::<ExprView>::empty() =~= exprs_view(result@));
    (result, i, None)
}

/// Parses `callee arguments...`.
pub fn parse_application(tokens: &Vec<Token>) -> (outcome: Result<Expr, ParseError>)
    ensures
        agrees(outcome, application(tokens_view(tokens@))),
    decreases tokens@, 2nat, 0nat,
{
    let callee = match Expr::parse(tokens, 0) {
        Ok(expr) => expr,
        Err(error) => {
            return Err(error);
        },
    };
    let arguments = match parse_zero_or_more(tokens, width_at(tokens, 0)) {
        (_, _, Some(error)) => {
            return Err(error);
        },
        (arguments, _, None) => arguments,
    };
    let expr = Expr::Application { callee: Box::new(callee), arguments };
    proof {
        lemma_application_view(expr);
    }
    Ok(expr)
}

/// Parses a whole input: one expression, with nothing behind it. In the
/// tree that comes out, the parameters of every procedure are
/// identifiers.
pub fn parse(tokens: &Vec<Token>) -> (outcome: Result<Expr, ParseError>)
    ensures
        agrees(outcome, parsed(tokens_view(tokens@))),
        outcome matches Ok(expr) ==> well_formed(expr@),
{
    proof {
        law_parsed_is_well_formed(tokens_view(tokens@));
    }
    parse_closing(tokens, 0)
}

} // verus!
