//! The grammar of the language, as functions from token sequences to
//! syntax trees.
//!
//! An expression is a braced form or an atom. A braced form is a
//! conditional, a procedure, a declaration or an application, told apart
//! by its first word; its contents must be used up. Repetition takes
//! items as long as one parses and stops, at the same position, at the
//! first that does not; a list that must be used up fails with the
//! failure of that item.

use crate::classify::{accepted_identifier, literal_kind, type_width, LiteralKind};
use crate::error::{failure, ParseErrorKind, ParseErrorView};
use crate::operator::{double_operator_at, operator_at};
use crate::syntax::{ClauseView, ExprView};
use crate::token::{Delimiter, TokenView};
use vstd::prelude::*;

verus! {

/// The word `word` stands at `pos`.
pub open spec fn word_at(tokens: Seq<TokenView>, pos: int, word: Seq<char>) -> bool {
    0 <= pos < tokens.len() && tokens[pos] == (TokenView::Ident { text: word })
}

/// The punctuation character `ch` stands at `pos`.
pub open spec fn punct_at(tokens: Seq<TokenView>, pos: int, ch: char) -> bool {
    0 <= pos < tokens.len() && tokens[pos] is Punct && tokens[pos]->ch == ch
}

/// A group with the delimiter `delimiter` stands at `pos`.
pub open spec fn group_at(tokens: Seq<TokenView>, pos: int, delimiter: Delimiter) -> bool {
    0 <= pos < tokens.len() && tokens[pos] is Group && tokens[pos]->delimiter == delimiter
}

/// An identifier stands at `pos`.
pub open spec fn identifier_at(tokens: Seq<TokenView>, pos: int) -> bool {
    0 <= pos < tokens.len() && tokens[pos] is Ident && accepted_identifier(tokens[pos]->Ident_text)
}

/// The kind of the literal at `pos`; `Other` where no literal stands
/// there.
pub open spec fn literal_kind_at(tokens: Seq<TokenView>, pos: int) -> LiteralKind {
    if 0 <= pos < tokens.len() && tokens[pos] is Literal {
        literal_kind(tokens[pos]->Literal_text)
    } else {
        LiteralKind::Other
    }
}

/// The atom at `pos`, given the kind of literal that the token there is
/// and whether it is an identifier: a string literal, an integer literal,
/// a boolean, an identifier or an operator, tried in this order.
pub open spec fn classified_atom(
    tokens: Seq<TokenView>,
    pos: int,
    kind: LiteralKind,
    identifier: bool,
) -> Result<ExprView, ParseErrorView> {
    if !(0 <= pos < tokens.len()) {
        Err(failure(ParseErrorKind::MissingExpression, pos))
    } else {
        match tokens[pos] {
            TokenView::Literal { text } => match kind {
                LiteralKind::Str => Ok(ExprView::StringLiteral { text }),
                LiteralKind::Int => Ok(ExprView::NumberLiteral { text }),
                LiteralKind::Other => Err(failure(ParseErrorKind::MalformedAtom, pos)),
            },
            TokenView::Ident { text } => if text == "true"@ {
                Ok(ExprView::BoolLiteral { value: true })
            } else if text == "false"@ {
                Ok(ExprView::BoolLiteral { value: false })
            } else if identifier {
                Ok(ExprView::Identifier { name: text, annotation: None })
            } else {
                Err(failure(ParseErrorKind::MalformedAtom, pos))
            },
            TokenView::Punct { .. } => match operator_at(tokens, pos) {
                Some(operator) => Ok(ExprView::OperatorLiteral { operator }),
                None => Err(failure(ParseErrorKind::MalformedAtom, pos)),
            },
            TokenView::Group { .. } => Err(failure(ParseErrorKind::MalformedAtom, pos)),
        }
    }
}

/// The atom at `pos`.
pub open spec fn atom_at(tokens: Seq<TokenView>, pos: int) -> Result<ExprView, ParseErrorView> {
    classified_atom(tokens, pos, literal_kind_at(tokens, pos), identifier_at(tokens, pos))
}

/// The number of token trees that the expression at `pos` takes up: two
/// for an operator of two characters, one for everything else.
pub open spec fn expr_width(tokens: Seq<TokenView>, pos: int) -> int {
    if double_operator_at(tokens, pos) is Some {
        2
    } else {
        1
    }
}

/// The word that names the parameter at `pos`: the first token within
/// brackets, else the token at `pos` itself; `None` where that is no
/// word.
pub open spec fn parameter_word(tokens: Seq<TokenView>, pos: int) -> Option<Seq<char>> {
    if group_at(tokens, pos, Delimiter::Bracket) {
        let inner = tokens[pos]->tokens;
        if inner.len() > 0 && inner[0] is Ident {
            Some(inner[0]->Ident_text)
        } else {
            None
        }
    } else if 0 <= pos < tokens.len() && tokens[pos] is Ident {
        Some(tokens[pos]->Ident_text)
    } else {
        None
    }
}

/// The parameter at `pos`, given whether its word is an identifier and
/// how far its type reaches: a bare identifier, or `[identifier : type]`
/// with the type reaching to the closing bracket.
pub open spec fn classified_parameter(
    tokens: Seq<TokenView>,
    pos: int,
    identifier: bool,
    width: Option<int>,
) -> Result<ExprView, ParseErrorView> {
    match parameter_word(tokens, pos) {
        Some(name) => if !identifier {
            if group_at(tokens, pos, Delimiter::Bracket) {
                Err(failure(ParseErrorKind::MissingIdentifier, 0).within(pos))
            } else {
                Err(failure(ParseErrorKind::MissingIdentifier, pos))
            }
        } else if !group_at(tokens, pos, Delimiter::Bracket) {
            Ok(ExprView::Identifier { name, annotation: None })
        } else {
            let inner = tokens[pos]->tokens;
            if !punct_at(inner, 1, ':') {
                Err(failure(ParseErrorKind::MissingColon, 1).within(pos))
            } else {
                match width {
                    Some(width) => if width < 0 || 2 + width > inner.len() {
                        Err(failure(ParseErrorKind::MalformedType, 2).within(pos))
                    } else if 2 + width < inner.len() {
                        Err(failure(ParseErrorKind::UnexpectedToken, 2 + width).within(pos))
                    } else {
                        Ok(
                            ExprView::Identifier {
                                name,
                                annotation: Some(inner.subrange(2, 2 + width)),
                            },
                        )
                    },
                    None => Err(failure(ParseErrorKind::MalformedType, 2).within(pos)),
                }
            }
        },
        None => if group_at(tokens, pos, Delimiter::Bracket) {
            Err(failure(ParseErrorKind::MissingIdentifier, 0).within(pos))
        } else {
            Err(failure(ParseErrorKind::MissingIdentifier, pos))
        },
    }
}

/// A parameter at `pos`: a bare identifier, or `[identifier : type]` with
/// the type reaching to the closing bracket.
pub open spec fn parameter_at(tokens: Seq<TokenView>, pos: int) -> Result<
    ExprView,
    ParseErrorView,
> {
    classified_parameter(
        tokens,
        pos,
        match parameter_word(tokens, pos) {
            Some(name) => accepted_identifier(name),
            None => false,
        },
        if group_at(tokens, pos, Delimiter::Bracket) {
            type_width(tokens[pos]->tokens, 2)
        } else {
            None
        },
    )
}

/// The parameters from `pos` on, as many as parse; the position where
/// they stop; and the failure that stopped them, if it was not the end
/// of the tokens.
pub open spec fn parameter_run(tokens: Seq<TokenView>, pos: int) -> (
    Seq<ExprView>,
    int,
    Option<ParseErrorView>,
)
    decreases tokens.len() - pos,
{
    if 0 <= pos < tokens.len() {
        match parameter_at(tokens, pos) {
            Ok(parameter) => {
                let (rest, end, failure) = parameter_run(tokens, pos + 1);
                (seq![parameter] + rest, end, failure)
            },
            Err(error) => (Seq::empty(), pos, Some(error)),
        }
    } else {
        (Seq::empty(), pos, None)
    }
}

/// The optional `: type` at `pos`, given how far the type behind the
/// colon reaches: the tokens of the type, if there is one, and the
/// position behind it.
pub open spec fn classified_annotation(
    tokens: Seq<TokenView>,
    pos: int,
    width: Option<int>,
) -> Result<(Option<Seq<TokenView>>, int), ParseErrorView> {
    if punct_at(tokens, pos, ':') {
        match width {
            Some(width) => if width < 0 || pos + 1 + width > tokens.len() {
                Err(failure(ParseErrorKind::MalformedType, pos + 1))
            } else {
                Ok((Some(tokens.subrange(pos + 1, pos + 1 + width)), pos + 1 + width))
            },
            None => Err(failure(ParseErrorKind::MalformedType, pos + 1)),
        }
    } else {
        Ok((None, pos))
    }
}

/// The optional `: type` at `pos`: the tokens of the type, if there is
/// one, and the position behind it.
pub open spec fn annotation_at(tokens: Seq<TokenView>, pos: int) -> Result<
    (Option<Seq<TokenView>>, int),
    ParseErrorView,
> {
    classified_annotation(tokens, pos, type_width(tokens, pos + 1))
}

/// The procedure applied to the bindings that a declaration stands for:
/// the names become the parameters, the bindings the arguments, in the
/// order of the clauses.
pub open spec fn desugared(
    clauses: Seq<ClauseView>,
    annotation: Option<Seq<TokenView>>,
    body: ExprView,
) -> ExprView {
    ExprView::Application {
        callee: Box::new(
            ExprView::Procedure {
                parameters: Seq::new(clauses.len(), |i: int| clauses[i].name),
                body: Box::new(body),
                return_annotation: annotation,
            },
        ),
        arguments: Seq::new(clauses.len(), |i: int| clauses[i].binding),
    }
}

/// The expression at `pos`: a braced form, or else an atom.
pub open spec fn expr_at(tokens: Seq<TokenView>, pos: int) -> Result<ExprView, ParseErrorView>
    decreases tokens, 0nat, 0nat,
{
    if group_at(tokens, pos, Delimiter::Brace) {
        match braced(tokens[pos]->tokens) {
            Ok(expr) => Ok(expr),
            Err(error) => Err(error.within(pos)),
        }
    } else {
        atom_at(tokens, pos)
    }
}

/// The form that the contents of a pair of braces spell.
pub open spec fn braced(tokens: Seq<TokenView>) -> Result<ExprView, ParseErrorView>
    decreases tokens, 3nat, 0nat,
{
    if word_at(tokens, 0, "if"@) {
        conditional(tokens)
    } else if word_at(tokens, 0, "proc"@) {
        procedure(tokens)
    } else if word_at(tokens, 0, "declare"@) {
        declaration(tokens)
    } else {
        application(tokens)
    }
}

/// `if guard then else`.
pub open spec fn conditional(tokens: Seq<TokenView>) -> Result<ExprView, ParseErrorView>
    decreases tokens, 2nat, 0nat,
{
    if !word_at(tokens, 0, "if"@) {
        Err(failure(ParseErrorKind::MissingIf, 0))
    } else {
        let at_then = 1 + expr_width(tokens, 1);
        let at_else = at_then + expr_width(tokens, at_then);
        let end = at_else + expr_width(tokens, at_else);
        match expr_at(tokens, 1) {
            Err(error) => Err(error),
            Ok(guard) => match expr_at(tokens, at_then) {
                Err(error) => Err(error),
                Ok(then_branch) => match expr_at(tokens, at_else) {
                    Err(error) => Err(error),
                    Ok(else_branch) => if end < tokens.len() {
                        Err(failure(ParseErrorKind::UnexpectedToken, end))
                    } else {
                        Ok(
                            ExprView::Conditional {
                                guard: Box::new(guard),
                                then_branch: Box::new(then_branch),
                                else_branch: Box::new(else_branch),
                            },
                        )
                    },
                },
            },
        }
    }
}

/// The body that closes a form: one expression at `pos`, with nothing
/// behind it.
pub open spec fn closing_expr(tokens: Seq<TokenView>, pos: int) -> Result<
    ExprView,
    ParseErrorView,
>
    decreases tokens, 1nat, 0nat,
{
    match expr_at(tokens, pos) {
        Err(error) => Err(error),
        Ok(body) => if pos + expr_width(tokens, pos) < tokens.len() {
            Err(failure(ParseErrorKind::UnexpectedToken, pos + expr_width(tokens, pos)))
        } else {
            Ok(body)
        },
    }
}

/// `proc (parameters) : type body`, the type being optional.
pub open spec fn procedure(tokens: Seq<TokenView>) -> Result<ExprView, ParseErrorView>
    decreases tokens, 2nat, 0nat,
{
    if !word_at(tokens, 0, "proc"@) {
        Err(failure(ParseErrorKind::MissingProc, 0))
    } else if !group_at(tokens, 1, Delimiter::Parenthesis) {
        Err(failure(ParseErrorKind::MissingParentheses, 1))
    } else {
        match parameter_run(tokens[1]->tokens, 0) {
            (_, _, Some(error)) => Err(error.within(1)),
            (parameters, _, None) => match annotation_at(tokens, 2) {
                Err(error) => Err(error),
                Ok((annotation, at_body)) => match closing_expr(tokens, at_body) {
                    Err(error) => Err(error),
                    Ok(body) => Ok(
                        ExprView::Procedure {
                            parameters,
                            body: Box::new(body),
                            return_annotation: annotation,
                        },
                    ),
                },
            },
        }
    }
}

/// One clause at `pos`: `[name binding]`, the name a parameter, the
/// binding an expression that reaches to the closing bracket.
pub open spec fn clause_at(tokens: Seq<TokenView>, pos: int) -> Result<ClauseView, ParseErrorView>
    decreases tokens, 0nat, 0nat,
{
    if !group_at(tokens, pos, Delimiter::Bracket) {
        Err(failure(ParseErrorKind::MissingClauseBrackets, pos))
    } else {
        let inner = tokens[pos]->tokens;
        match parameter_at(inner, 0) {
            Err(error) => Err(error.within(pos)),
            Ok(name) => match closing_expr(inner, 1) {
                Err(error) => Err(error.within(pos)),
                Ok(binding) => Ok(ClauseView { name, binding }),
            },
        }
    }
}

/// The clauses from `pos` on, as many as parse; the position where they
/// stop; and the failure that stopped them, if it was not the end of the
/// tokens.
pub open spec fn clause_run(tokens: Seq<TokenView>, pos: int) -> (
    Seq<ClauseView>,
    int,
    Option<ParseErrorView>,
)
    decreases tokens, 1nat, tokens.len() - pos,
{
    if 0 <= pos < tokens.len() {
        match clause_at(tokens, pos) {
            Ok(clause) => {
                let (rest, end, failure) = clause_run(tokens, pos + 1);
                (seq![clause] + rest, end, failure)
            },
            Err(error) => (Seq::empty(), pos, Some(error)),
        }
    } else {
        (Seq::empty(), pos, None)
    }
}

/// `declare (clauses) : type in body`, the type being optional; it
/// stands for the procedure of the names, applied to the bindings.
pub open spec fn declaration(tokens: Seq<TokenView>) -> Result<ExprView, ParseErrorView>
    decreases tokens, 2nat, 0nat,
{
    if !word_at(tokens, 0, "declare"@) {
        Err(failure(ParseErrorKind::MissingDeclare, 0))
    } else if !group_at(tokens, 1, Delimiter::Parenthesis) {
        Err(failure(ParseErrorKind::MissingParentheses, 1))
    } else {
        match clause_run(tokens[1]->tokens, 0) {
            (_, _, Some(error)) => Err(error.within(1)),
            (clauses, _, None) => match annotation_at(tokens, 2) {
                Err(error) => Err(error),
                Ok((annotation, at_in)) => if !word_at(tokens, at_in, "in"@) {
                    Err(failure(ParseErrorKind::MissingIn, at_in))
                } else {
                    match closing_expr(tokens, at_in + 1) {
                        Err(error) => Err(error),
                        Ok(body) => Ok(desugared(clauses, annotation, body)),
                    }
                },
            },
        }
    }
}

/// The expressions from `pos` on, as many as parse; the position where
/// they stop; and the failure that stopped them, if it was not the end
/// of the tokens.
pub open spec fn expr_run(tokens: Seq<TokenView>, pos: int) -> (
    Seq<ExprView>,
    int,
    Option<ParseErrorView>,
)
    decreases tokens, 1nat, tokens.len() - pos,
{
    if 0 <= pos < tokens.len() {
        match expr_at(tokens, pos) {
            Ok(expr) => {
                let (rest, end, failure) = expr_run(tokens, pos + expr_width(tokens, pos));
                (seq![expr] + rest, end, failure)
            },
            Err(error) => (Seq::empty(), pos, Some(error)),
        }
    } else {
        (Seq::empty(), pos, None)
    }
}

/// `callee arguments...`: one expression, then as many more as there
/// are.
pub open spec fn application(tokens: Seq<TokenView>) -> Result<ExprView, ParseErrorView>
    decreases tokens, 2nat, 0nat,
{
    match expr_at(tokens, 0) {
        Err(error) => Err(error),
        Ok(callee) => match expr_run(tokens, expr_width(tokens, 0)) {
            (_, _, Some(error)) => Err(error),
            (arguments, _, None) => Ok(
                ExprView::Application { callee: Box::new(callee), arguments },
            ),
        },
    }
}

/// The expression that a whole input spells: one expression with nothing
/// behind it.
pub open spec fn parsed(tokens: Seq<TokenView>) -> Result<ExprView, ParseErrorView> {
    closing_expr(tokens, 0)
}

} // verus!
