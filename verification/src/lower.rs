//! Lowering: from a syntax tree to the tokens of an equivalent Rust
//! expression.
//!
//! Children are lowered before their parent, in the order of their
//! numbers; the first failure ends the pass. The children of a
//! conditional are numbered 0 to 2 (guard, then, else); those of a
//! procedure are its parameters from 0 and then its body; those of an
//! application are its callee, 0, and then its arguments from 1.

use crate::error::{ArityError, ArityErrorView, InterpError, InterpErrorView};
use crate::grammar::parsed;
use crate::laws::law_lowering_checks_arity;
use crate::operator::{operator_tokens, BinaryOperator};
use crate::parser::parse;
use crate::syntax::{
    bool_word, exprs_view, lemma_application_view, lemma_procedure_view, Expr, ExprView,
};
use crate::token::{
    alone, extend_tokens, group, lemma_group_view, lemma_tokens_view_push, push_alone,
    push_group, push_word, single, tokens_view, word, Delimiter, Token, TokenView,
};
use vstd::prelude::*;

verus! {

/// The first `count` of `parts`, separated by commas.
pub open spec fn joined(parts: Seq<Seq<TokenView>>, count: nat) -> Seq<TokenView>
    decreases count,
{
    if count == 0 || count > parts.len() {
        Seq::empty()
    } else if count == 1 {
        parts[0]
    } else {
        joined(parts, (count - 1) as nat) + seq![alone(',')] + parts[count - 1]
    }
}

/// `if guard { then } else { other }`.
pub open spec fn conditional_tokens(
    guard: Seq<TokenView>,
    then_branch: Seq<TokenView>,
    else_branch: Seq<TokenView>,
) -> Seq<TokenView> {
    seq![word("if"@)] + guard + seq![
        group(Delimiter::Brace, then_branch),
        word("else"@),
        group(Delimiter::Brace, else_branch),
    ]
}

/// `(|parameters| body)`, or `(|parameters| -> type { body })` where a
/// return type is given.
pub open spec fn procedure_tokens(
    parameters: Seq<Seq<TokenView>>,
    annotation: Option<Seq<TokenView>>,
    body: Seq<TokenView>,
) -> Seq<TokenView> {
    let head = seq![alone('|')] + joined(parameters, parameters.len()) + seq![alone('|')];
    match annotation {
        Some(tokens) => seq![
            group(
                Delimiter::Parenthesis,
                head + seq![TokenView::Punct { ch: '-', joint: true }, alone('>')] + tokens
                    + seq![group(Delimiter::Brace, body)],
            ),
        ],
        None => seq![group(Delimiter::Parenthesis, head + body)],
    }
}

/// `(left operator right)`.
pub open spec fn infix_tokens(
    left: Seq<TokenView>,
    operator: Seq<TokenView>,
    right: Seq<TokenView>,
) -> Seq<TokenView> {
    seq![group(Delimiter::Parenthesis, left + operator + right)]
}

/// `callee(arguments)`.
pub open spec fn call_tokens(callee: Seq<TokenView>, arguments: Seq<Seq<TokenView>>) -> Seq<
    TokenView,
> {
    callee + seq![group(Delimiter::Parenthesis, joined(arguments, arguments.len()))]
}

/// The tokens that an operator applied to `arguments` lowers to: an
/// infix expression of the two arguments, or the failure where there are
/// not exactly two.
pub open spec fn primitive_tokens(
    operator: BinaryOperator,
    arguments: Seq<Seq<TokenView>>,
) -> Result<Seq<TokenView>, ArityErrorView> {
    if arguments.len() != 2 {
        Err(ArityErrorView { operator, found: arguments.len() as int, location: Seq::empty() })
    } else {
        Ok(infix_tokens(arguments[0], operator_tokens(operator), arguments[1]))
    }
}

/// The tokens of an expression.
pub open spec fn lowered(expr: ExprView) -> Result<Seq<TokenView>, ArityErrorView>
    decreases expr, 0nat,
{
    match expr {
        ExprView::NumberLiteral { text } => Ok(seq![TokenView::Literal { text }]),
        ExprView::BoolLiteral { value } => Ok(seq![word(bool_word(value))]),
        ExprView::StringLiteral { text } => Ok(seq![TokenView::Literal { text }]),
        ExprView::Identifier { name, .. } => Ok(seq![word(name)]),
        ExprView::OperatorLiteral { operator } => Ok(operator_tokens(operator)),
        ExprView::Conditional { guard, then_branch, else_branch } => match lowered(*guard) {
            Err(error) => Err(error.within(0)),
            Ok(guard_tokens) => match lowered(*then_branch) {
                Err(error) => Err(error.within(1)),
                Ok(then_tokens) => match lowered(*else_branch) {
                    Err(error) => Err(error.within(2)),
                    Ok(else_tokens) => Ok(
                        conditional_tokens(guard_tokens, then_tokens, else_tokens),
                    ),
                },
            },
        },
        ExprView::Procedure { parameters, body, return_annotation } => match lowered_parameters(
            parameters,
            parameters.len(),
        ) {
            Err(error) => Err(error),
            Ok(parameter_tokens) => match lowered(*body) {
                Err(error) => Err(error.within(parameters.len() as int)),
                Ok(body_tokens) => Ok(
                    procedure_tokens(parameter_tokens, return_annotation, body_tokens),
                ),
            },
        },
        ExprView::Application { callee, arguments } => match lowered(*callee) {
            Err(error) => Err(error.within(0)),
            Ok(callee_tokens) => match lowered_arguments(arguments, arguments.len()) {
                Err(error) => Err(error),
                Ok(argument_tokens) => match *callee {
                    ExprView::OperatorLiteral { operator } => primitive_tokens(
                        operator,
                        argument_tokens,
                    ),
                    _ => Ok(call_tokens(callee_tokens, argument_tokens)),
                },
            },
        },
    }
}

/// The tokens of an expression that stands as a parameter: an
/// identifier keeps its type, as `name: type`; anything else lowers as
/// it does elsewhere.
pub open spec fn lowered_parameter(expr: ExprView) -> Result<Seq<TokenView>, ArityErrorView>
    decreases expr, 1nat,
{
    match expr {
        ExprView::Identifier { name, annotation: Some(tokens) } => Ok(
            seq![word(name), alone(':')] + tokens,
        ),
        _ => lowered(expr),
    }
}

/// The tokens of the first `count` parameters, each by itself, or the
/// failure of the first that fails.
pub open spec fn lowered_parameters(items: Seq<ExprView>, count: nat) -> Result<
    Seq<Seq<TokenView>>,
    ArityErrorView,
>
    decreases items, count,
{
    if count == 0 || count > items.len() {
        Ok(Seq::empty())
    } else {
        match lowered_parameters(items, (count - 1) as nat) {
            Err(error) => Err(error),
            Ok(parts) => match lowered_parameter(items[count - 1]) {
                Err(error) => Err(error.within(count - 1)),
                Ok(tokens) => Ok(parts.push(tokens)),
            },
        }
    }
}

/// The tokens of the first `count` arguments, each by itself, or the
/// failure of the first that fails.
pub open spec fn lowered_arguments(items: Seq<ExprView>, count: nat) -> Result<
    Seq<Seq<TokenView>>,
    ArityErrorView,
>
    decreases items, count,
{
    if count == 0 || count > items.len() {
        Ok(Seq::empty())
    } else {
        match lowered_arguments(items, (count - 1) as nat) {
            Err(error) => Err(error),
            Ok(parts) => match lowered(items[count - 1]) {
                Err(error) => Err(error.within(count as int)),
                Ok(tokens) => Ok(parts.push(tokens)),
            },
        }
    }
}

/// Every operator that an expression applies has exactly two arguments.
pub open spec fn well_applied(expr: ExprView) -> bool
    decreases expr,
{
    match expr {
        ExprView::Conditional { guard, then_branch, else_branch } => well_applied(*guard)
            && well_applied(*then_branch) && well_applied(*else_branch),
        ExprView::Procedure { parameters, body, .. } => {
            &&& forall|i: int| 0 <= i < parameters.len() ==> well_applied(#[trigger] parameters[i])
            &&& well_applied(*body)
        },
        ExprView::Application { callee, arguments } => {
            &&& well_applied(*callee)
            &&& forall|i: int| 0 <= i < arguments.len() ==> well_applied(#[trigger] arguments[i])
            &&& (*callee is OperatorLiteral ==> arguments.len() == 2)
        },
        _ => true,
    }
}

/// The views of a sequence of token sequences.
pub open spec fn parts_view(parts: Seq<Vec<Token>>) -> Seq<Seq<TokenView>> {
    Seq::new(parts.len(), |i: int| tokens_view(parts[i]@))
}

/// The outcome of lowering agrees with what is specified.
pub open spec fn lowering_agrees(
    outcome: Result<Vec<Token>, ArityError>,
    expected: Result<Seq<TokenView>, ArityErrorView>,
) -> bool {
    match outcome {
        Ok(tokens) => expected == Ok::<Seq<TokenView>, ArityErrorView>(tokens_view(tokens@)),
        Err(error) => expected == Err::<Seq<TokenView>, ArityErrorView>(error@),
    }
}

/// The outcome of lowering a list agrees with what is specified.
pub open spec fn list_agrees(
    outcome: Result<Vec<Vec<Token>>, ArityError>,
    expected: Result<Seq<Seq<TokenView>>, ArityErrorView>,
) -> bool {
    match outcome {
        Ok(parts) => expected == Ok::<Seq<Seq<TokenView>>, ArityErrorView>(parts_view(parts@)),
        Err(error) => expected == Err::<Seq<Seq<TokenView>>, ArityErrorView>(error@),
    }
}

/// Joins token sequences with commas.
pub fn join_tokens(parts: &Vec<Vec<Token>>) -> (out: Vec<Token>)
    ensures
        tokens_view(out@) == joined(parts_view(parts@), parts@.len()),
{
    let ghost views = parts_view(parts@);
    let mut out: Vec<Token> = Vec::new();
    let mut i: usize = 0;
    assert(tokens_view(out@) =~= joined(views, 0));
    while i < parts.len()
        invariant
            i <= parts.len(),
            views == parts_view(parts@),
            tokens_view(out@) == joined(views, i as nat),
        decreases parts.len() - i,
    {
        if i > 0 {
            push_alone(&mut out, ',');
        }
        let ghost before = tokens_view(out@);
        extend_tokens(&mut out, &parts[i]);
        proof {
            assert(views[i as int] == tokens_view(parts@[i as int]@));
            if i == 0 {
                assert(before + views[0] =~= views[0]);
            } else {
                assert(before == joined(views, i as nat) + seq![alone(',')]);
            }
        }
        i += 1;
    }
    out
}

/// Lowers an operator applied to `args`: `(left operator right)` for
/// two arguments, an arity error for any other number.
pub fn handle_prim(operator: BinaryOperator, args: Vec<Vec<Token>>) -> (outcome: Result<
    Vec<Token>,
    ArityError,
>)
    ensures
        lowering_agrees(outcome, primitive_tokens(operator, parts_view(args@))),
{
    if args.len() != 2 {
        Err(ArityError::here(operator, args.len()))
    } else {
        let mut inner: Vec<Token> = Vec::new();
        assert(tokens_view(inner@) =~= Seq::<TokenView>::empty());
        extend_tokens(&mut inner, &args[0]);
        let symbol = operator.to_tokens();
        extend_tokens(&mut inner, &symbol);
        extend_tokens(&mut inner, &args[1]);
        let ghost views = parts_view(args@);
        assert(tokens_view(inner@) =~= views[0] + operator_tokens(operator) + views[1]);
        let token = Token::Group { delimiter: Delimiter::Parenthesis, tokens: inner };
        proof {
            lemma_group_view(token);
        }
        Ok(single(token))
    }
}

/// Lowers a call: `callee(arguments)`.
pub fn handle_proc(callee: Vec<Token>, args: Vec<Vec<Token>>) -> (out: Vec<Token>)
    ensures
        tokens_view(out@) == call_tokens(tokens_view(callee@), parts_view(args@)),
{
    let mut out = callee;
    let list = join_tokens(&args);
    push_group(&mut out, Delimiter::Parenthesis, list);
    assert(tokens_view(out@) =~= call_tokens(tokens_view(callee@), parts_view(args@)));
    out
}

fn walk_parameter(expr: &Expr) -> (outcome: Result<Vec<Token>, ArityError>)
    ensures
        lowering_agrees(outcome, lowered_parameter(expr@)),
    decreases expr, 2nat,
{
    match expr {
        Expr::Identifier { name, annotation: Some(tokens) } => {
            let mut out: Vec<Token> = Vec::new();
            assert(tokens_view(out@) =~= Seq::<TokenView>::empty());
            push_word(&mut out, name.as_str());
            push_alone(&mut out, ':');
            extend_tokens(&mut out, tokens);
            assert(tokens_view(out@) =~= seq![word(name@), alone(':')] + tokens_view(tokens@));
            Ok(out)
        },
        _ => walk_ast(expr),
    }
}

fn walk_parameters(items: &Vec<Expr>) -> (outcome: Result<Vec<Vec<Token>>, ArityError>)
    ensures
        list_agrees(outcome, lowered_parameters(exprs_view(items@), items@.len())),
    decreases items@, 0nat,
{
    let ghost views = exprs_view(items@);
    let mut parts: Vec<Vec<Token>> = Vec::new();
    let mut i: usize = 0;
    assert(parts_view(parts@) =~= Seq::<Seq<TokenView>>::empty());
    while i < items.len()
        invariant
            i <= items.len(),
            views == exprs_view(items@),
            lowered_parameters(views, i as nat) == Ok::<Seq<Seq<TokenView>>, ArityErrorView>(
                parts_view(parts@),
            ),
        decreases items.len() - i,
    {
        match walk_parameter(&items[i]) {
            Ok(tokens) => {
                assert(parts_view(parts@.push(tokens)) =~= parts_view(parts@).push(
                    tokens_view(tokens@),
                ));
                parts.push(tokens);
            },
            Err(error) => {
                proof {
                    lemma_parameters_failure(views, (i + 1) as nat, items@.len());
                }
                return Err(error.within(i));
            },
        }
        i += 1;
    }
    Ok(parts)
}

fn walk_arguments(items: &Vec<Expr>) -> (outcome: Result<Vec<Vec<Token>>, ArityError>)
    ensures
        list_agrees(outcome, lowered_arguments(exprs_view(items@), items@.len())),
    decreases items@, 0nat,
{
    let ghost views = exprs_view(items@);
    let mut parts: Vec<Vec<Token>> = Vec::new();
    let mut i: usize = 0;
    assert(parts_view(parts@) =~= Seq::<Seq<TokenView>>::empty());
    while i < items.len()
        invariant
            i <= items.len(),
            views == exprs_view(items@),
            lowered_arguments(views, i as nat) == Ok::<Seq<Seq<TokenView>>, ArityErrorView>(
                parts_view(parts@),
            ),
        decreases items.len() - i,
    {
        match walk_ast(&items[i]) {
            Ok(tokens) => {
                assert(parts_view(parts@.push(tokens)) =~= parts_view(parts@).push(
                    tokens_view(tokens@),
                ));
                parts.push(tokens);
            },
            Err(error) => {
                proof {
                    lemma_arguments_failure(views, (i + 1) as nat, items@.len());
                }
                let len = items.len();
                return Err(error.within(i + 1));
            },
        }
        i += 1;
    }
    Ok(parts)
}

/// A failure among the first `count` parameters is the failure of every
/// longer prefix.
pub proof fn lemma_parameters_failure(items: Seq<ExprView>, count: nat, longer: nat)
    requires
        count <= longer <= items.len(),
        lowered_parameters(items, count) is Err,
    ensures
        lowered_parameters(items, longer) == lowered_parameters(items, count),
    decreases longer,
{
    if count < longer {
        lemma_parameters_failure(items, count, (longer - 1) as nat);
    }
}

/// A failure among the first `count` arguments is the failure of every
/// longer prefix.
pub proof fn lemma_arguments_failure(items: Seq<ExprView>, count: nat, longer: nat)
    requires
        count <= longer <= items.len(),
        lowered_arguments(items, count) is Err,
    ensures
        lowered_arguments(items, longer) == lowered_arguments(items, count),
    decreases longer,
{
    if count < longer {
        lemma_arguments_failure(items, count, (longer - 1) as nat);
    }
}

fn walk_conditional(expr: &Expr) -> (outcome: Result<Vec<Token>, ArityError>)
    requires
        expr is Conditional,
    ensures
        lowering_agrees(outcome, lowered(expr@)),
    decreases expr, 0nat,
{
    match expr {
        Expr::Conditional { guard, then_branch, else_branch } => {
            let guard_tokens = match walk_ast(guard) {
                Ok(tokens) => tokens,
                Err(error) => {
                    return Err(error.within(0));
                },
            };
            let then_tokens = match walk_ast(then_branch) {
                Ok(tokens) => tokens,
                Err(error) => {
                    return Err(error.within(1));
                },
            };
            let else_tokens = match walk_ast(else_branch) {
                Ok(tokens) => tokens,
                Err(error) => {
                    return Err(error.within(2));
                },
            };
            let mut out: Vec<Token> = Vec::new();
            assert(tokens_view(out@) =~= Seq::<TokenView>::empty());
            push_word(&mut out, "if");
            extend_tokens(&mut out, &guard_tokens);
            let ghost then_view = tokens_view(then_tokens@);
            let ghost else_view = tokens_view(else_tokens@);
            push_group(&mut out, Delimiter::Brace, then_tokens);
            push_word(&mut out, "else");
            push_group(&mut out, Delimiter::Brace, else_tokens);
            assert(tokens_view(out@) =~= conditional_tokens(
                tokens_view(guard_tokens@),
                then_view,
                else_view,
            ));
            Ok(out)
        },
        _ => Ok(Vec::new()),
    }
}

fn walk_procedure(expr: &Expr) -> (outcome: Result<Vec<Token>, ArityError>)
    requires
        expr is Procedure,
    ensures
        lowering_agrees(outcome, lowered(expr@)),
    decreases expr, 0nat,
{
    match expr {
        Expr::Procedure { parameters, body, return_annotation } => {
            proof {
                lemma_procedure_view(*expr);
            }
            let parameter_tokens = match walk_parameters(parameters) {
                Ok(parts) => parts,
                Err(error) => {
                    return Err(error);
                },
            };
            let body_tokens = match walk_ast(body) {
                Ok(tokens) => tokens,
                Err(error) => {
                    return Err(error.within(parameters.len()));
                },
            };
            let ghost body_view = tokens_view(body_tokens@);
            let mut inner: Vec<Token> = Vec::new();
            assert(tokens_view(inner@) =~= Seq::<TokenView>::empty());
            push_alone(&mut inner, '|');
            let list = join_tokens(&parameter_tokens);
            extend_tokens(&mut inner, &list);
            push_alone(&mut inner, '|');
            let ghost head = seq![alone('|')] + joined(
                parts_view(parameter_tokens@),
                parameter_tokens@.len(),
            ) + seq![alone('|')];
            assert(tokens_view(inner@) =~= head);
            match return_annotation {
                Some(tokens) => {
                    let arrow = Token::Punct { ch: '-', joint: true };
                    proof {
                        lemma_tokens_view_push(inner@, arrow);
                    }
                    inner.push(arrow);
                    push_alone(&mut inner, '>');
                    extend_tokens(&mut inner, tokens);
                    push_group(&mut inner, Delimiter::Brace, body_tokens);
                    assert(tokens_view(inner@) =~= head + seq![
                        TokenView::Punct { ch: '-', joint: true },
                        alone('>'),
                    ] + tokens_view(tokens@) + seq![group(Delimiter::Brace, body_view)]);
                },
                None => {
                    extend_tokens(&mut inner, &body_tokens);
                },
            }
            let token = Token::Group { delimiter: Delimiter::Parenthesis, tokens: inner };
            proof {
                lemma_group_view(token);
            }
            Ok(single(token))
        },
        _ => Ok(Vec::new()),
    }
}

fn walk_application(expr: &Expr) -> (outcome: Result<Vec<Token>, ArityError>)
    requires
        expr is Application,
    ensures
        lowering_agrees(outcome, lowered(expr@)),
    decreases expr, 0nat,
{
    match expr {
        Expr::Application { callee, arguments } => {
            proof {
                lemma_application_view(*expr);
            }
            let callee_tokens = match walk_ast(callee) {
                Ok(tokens) => tokens,
                Err(error) => {
                    return Err(error.within(0));
                },
            };
            let argument_tokens = match walk_arguments(arguments) {
                Ok(parts) => parts,
                Err(error) => {
                    return Err(error);
                },
            };
            match &**callee {
                Expr::OperatorLiteral { operator } => handle_prim(*operator, argument_tokens),
                _ => Ok(handle_proc(callee_tokens, argument_tokens)),
            }
        },
        _ => Ok(Vec::new()),
    }
}

/// Lowers an expression to the tokens of a Rust expression, or fails
/// with the first operator that is applied to other than two arguments.
/// It succeeds exactly where every applied operator has two arguments.
pub fn walk_ast(expr: &Expr) -> (outcome: Result<Vec<Token>, ArityError>)
    ensures
        lowering_agrees(outcome, lowered(expr@)),
        outcome is Ok <==> well_applied(expr@),
    decreases expr, 1nat,
{
    proof {
        law_lowering_checks_arity(expr@);
    }
    match expr {
        Expr::NumberLiteral { text } => Ok(single(Token::Literal { text: text.clone() })),
        Expr::BoolLiteral { value } => {
            let text = if *value {
                "true"
            } else {
                "false"
            };
            Ok(single(Token::Ident { text: text.to_owned() }))
        },
        Expr::StringLiteral { text } => Ok(single(Token::Literal { text: text.clone() })),
        Expr::Identifier { name, .. } => Ok(single(Token::Ident { text: name.clone() })),
        Expr::OperatorLiteral { operator } => Ok(operator.to_tokens()),
        Expr::Conditional { .. } => walk_conditional(expr),
        Expr::Procedure { .. } => walk_procedure(expr),
        Expr::Application { .. } => walk_application(expr),
    }
}

/// What lowering a whole input yields: the tokens of the expression it
/// spells, or the failure to parse or to lower it.
pub open spec fn interpreted(tokens: Seq<TokenView>) -> Result<Seq<TokenView>, InterpErrorView> {
    match parsed(tokens) {
        Err(error) => Err(InterpErrorView::Parse(error)),
        Ok(expr) => match lowered(expr) {
            Err(error) => Err(InterpErrorView::Arity(error)),
            Ok(code) => Ok(code),
        },
    }
}

/// Parses a whole input and lowers the expression to Rust tokens.
pub fn interp(tokens: &Vec<Token>) -> (outcome: Result<Vec<Token>, InterpError>)
    ensures
        match outcome {
            Ok(code) => interpreted(tokens_view(tokens@)) == Ok::<
                Seq<TokenView>,
                InterpErrorView,
            >(tokens_view(code@)),
            Err(error) => interpreted(tokens_view(tokens@)) == Err::<
                Seq<TokenView>,
                InterpErrorView,
            >(error@),
        },
{
    match parse(tokens) {
        Err(error) => Err(InterpError::Parse(error)),
        Ok(expr) => match walk_ast(&expr) {
            Err(error) => Err(InterpError::Arity(error)),
            Ok(code) => Ok(code),
        },
    }
}

} // verus!
