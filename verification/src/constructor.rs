//! An expression as the tokens of the constructor that builds it: the
//! path of the variant, then its fields in braces, each with its name.

use crate::lower::{join_tokens, joined, parts_view};
use crate::operator::operator_tokens;
use crate::syntax::{
    bool_word, exprs_view, lemma_application_view, lemma_procedure_view, Expr, ExprView,
};
use crate::token::{
    alone, extend_tokens, group, lemma_tokens_view_push, optional_tokens_view, push_alone,
    push_group, push_word, single, tokens_view, word, Delimiter, Token, TokenView,
};
use vstd::prelude::*;

verus! {

/// `name: value`.
pub open spec fn field(name: Seq<char>, value: Seq<TokenView>) -> Seq<TokenView> {
    seq![word(name), alone(':')] + value
}

/// `Expr::variant { fields }`.
pub open spec fn constructed(variant: Seq<char>, fields: Seq<TokenView>) -> Seq<TokenView> {
    seq![
        word("Expr"@),
        TokenView::Punct { ch: ':', joint: true },
        alone(':'),
        word(variant),
        group(Delimiter::Brace, fields),
    ]
}

/// The tokens of an optional type; none where there is no type.
pub open spec fn type_tokens(annotation: Option<Seq<TokenView>>) -> Seq<TokenView> {
    match annotation {
        Some(tokens) => tokens,
        None => Seq::empty(),
    }
}

/// The constructor of an expression. The fields that follow one another
/// end in a comma each; a list is its items separated by commas.
pub open spec fn constructor_tokens(expr: ExprView) -> Seq<TokenView>
    decreases expr, 0nat,
{
    match expr {
        ExprView::NumberLiteral { text } => constructed(
            "NumberLiteral"@,
            field("text"@, seq![TokenView::Literal { text }]),
        ),
        ExprView::BoolLiteral { value } => constructed(
            "BoolLiteral"@,
            field("value"@, seq![word(bool_word(value))]),
        ),
        ExprView::StringLiteral { text } => constructed(
            "StringLiteral"@,
            field("text"@, seq![TokenView::Literal { text }]),
        ),
        ExprView::Identifier { name, annotation } => constructed(
            "Identifier"@,
            field("name"@, seq![word(name)]) + seq![alone(',')] + field(
                "annotation"@,
                type_tokens(annotation),
            ) + seq![alone(',')],
        ),
        ExprView::OperatorLiteral { operator } => constructed(
            "OperatorLiteral"@,
            field("operator"@, operator_tokens(operator)),
        ),
        ExprView::Conditional { guard, then_branch, else_branch } => constructed(
            "Conditional"@,
            field("guard"@, constructor_tokens(*guard)) + seq![alone(',')] + field(
                "then_branch"@,
                constructor_tokens(*then_branch),
            ) + seq![alone(',')] + field("else_branch"@, constructor_tokens(*else_branch))
                + seq![alone(',')],
        ),
        ExprView::Procedure { parameters, body, return_annotation } => constructed(
            "Procedure"@,
            field(
                "parameters"@,
                joined(constructor_parts(parameters, parameters.len()), parameters.len()),
            ) + seq![alone(',')] + field("body"@, constructor_tokens(*body)) + seq![alone(',')]
                + field("return_annotation"@, type_tokens(return_annotation)) + seq![alone(',')],
        ),
        ExprView::Application { callee, arguments } => constructed(
            "Application"@,
            field("callee"@, constructor_tokens(*callee)) + seq![alone(',')] + field(
                "arguments"@,
                joined(constructor_parts(arguments, arguments.len()), arguments.len()),
            ) + seq![alone(',')],
        ),
    }
}

/// The constructors of the first `count` of `items`, each by itself.
pub open spec fn constructor_parts(items: Seq<ExprView>, count: nat) -> Seq<Seq<TokenView>>
    decreases items, count,
{
    if count == 0 || count > items.len() {
        Seq::empty()
    } else {
        constructor_parts(items, (count - 1) as nat).push(constructor_tokens(items[count - 1]))
    }
}

fn push_field(out: &mut Vec<Token>, name: &str, value: &Vec<Token>, comma: bool)
    ensures
        tokens_view(final(out)@) == tokens_view(old(out)@) + field(name@, tokens_view(value@))
            + if comma {
            seq![alone(',')]
        } else {
            Seq::empty()
        },
{
    push_word(out, name);
    push_alone(out, ':');
    extend_tokens(out, value);
    if comma {
        push_alone(out, ',');
    }
    assert(tokens_view(out@) =~= tokens_view(old(out)@) + field(name@, tokens_view(value@))
        + if comma {
        seq![alone(',')]
    } else {
        Seq::empty()
    });
}

fn construct(variant: &str, fields: Vec<Token>) -> (out: Vec<Token>)
    ensures
        tokens_view(out@) == constructed(variant@, tokens_view(fields@)),
{
    let mut out: Vec<Token> = Vec::new();
    assert(tokens_view(out@) =~= Seq::<TokenView>::empty());
    push_word(&mut out, "Expr");
    let colon = Token::Punct { ch: ':', joint: true };
    proof {
        lemma_tokens_view_push(out@, colon);
    }
    out.push(colon);
    push_alone(&mut out, ':');
    push_word(&mut out, variant);
    let ghost inner = tokens_view(fields@);
    push_group(&mut out, Delimiter::Brace, fields);
    assert(tokens_view(out@) =~= constructed(variant@, inner));
    out
}

fn type_of(annotation: &Option<Vec<Token>>) -> (out: Vec<Token>)
    ensures
        tokens_view(out@) == type_tokens(optional_tokens_view(*annotation)),
{
    let mut out: Vec<Token> = Vec::new();
    assert(tokens_view(out@) =~= Seq::<TokenView>::empty());
    match annotation {
        Some(tokens) => {
            extend_tokens(&mut out, tokens);
            assert(tokens_view(out@) =~= tokens_view(tokens@));
        },
        None => {},
    }
    out
}

fn list_to_tokens(items: &Vec<Expr>) -> (out: Vec<Token>)
    ensures
        tokens_view(out@) == joined(
            constructor_parts(exprs_view(items@), items@.len()),
            items@.len(),
        ),
    decreases items@,
{
    let ghost views = exprs_view(items@);
    let mut parts: Vec<Vec<Token>> = Vec::new();
    let mut i: usize = 0;
    assert(parts_view(parts@) =~= constructor_parts(views, 0));
    while i < items.len()
        invariant
            i <= items.len(),
            views == exprs_view(items@),
            parts@.len() == i,
            parts_view(parts@) == constructor_parts(views, i as nat),
        decreases items.len() - i,
    {
        let tokens = items[i].to_tokens();
        assert(parts_view(parts@.push(tokens)) =~= parts_view(parts@).push(tokens_view(tokens@)));
        parts.push(tokens);
        i += 1;
    }
    join_tokens(&parts)
}

fn composite_to_tokens(expr: &Expr) -> (out: Vec<Token>)
    requires
        expr is Conditional || expr is Procedure || expr is Application,
    ensures
        tokens_view(out@) == constructor_tokens(expr@),
    decreases expr, 0nat,
{
    let mut fields: Vec<Token> = Vec::new();
    assert(tokens_view(fields@) =~= Seq::<TokenView>::empty());
    match expr {
        Expr::Conditional { guard, then_branch, else_branch } => {
            let guard_tokens = guard.to_tokens();
            push_field(&mut fields, "guard", &guard_tokens, true);
            let then_tokens = then_branch.to_tokens();
            push_field(&mut fields, "then_branch", &then_tokens, true);
            let else_tokens = else_branch.to_tokens();
            push_field(&mut fields, "else_branch", &else_tokens, true);
            assert(tokens_view(fields@) =~= field("guard"@, constructor_tokens((**guard)@))
                + seq![alone(',')] + field("then_branch"@, constructor_tokens((**then_branch)@))
                + seq![alone(',')] + field("else_branch"@, constructor_tokens((**else_branch)@))
                + seq![alone(',')]);
            construct("Conditional", fields)
        },
        Expr::Procedure { parameters, body, return_annotation } => {
            proof {
                lemma_procedure_view(*expr);
            }
            let list = list_to_tokens(parameters);
            push_field(&mut fields, "parameters", &list, true);
            let body_tokens = body.to_tokens();
            push_field(&mut fields, "body", &body_tokens, true);
            let types = type_of(return_annotation);
            push_field(&mut fields, "return_annotation", &types, true);
            assert(tokens_view(fields@) =~= field("parameters"@, tokens_view(list@)) + seq![
                alone(','),
            ] + field("body"@, constructor_tokens((**body)@)) + seq![alone(',')] + field(
                "return_annotation"@,
                type_tokens(optional_tokens_view(*return_annotation)),
            ) + seq![alone(',')]);
            construct("Procedure", fields)
        },
        Expr::Application { callee, arguments } => {
            proof {
                lemma_application_view(*expr);
            }
            let callee_tokens = callee.to_tokens();
            push_field(&mut fields, "callee", &callee_tokens, true);
            let list = list_to_tokens(arguments);
            push_field(&mut fields, "arguments", &list, true);
            assert(tokens_view(fields@) =~= field("callee"@, constructor_tokens((**callee)@))
                + seq![alone(',')] + field("arguments"@, tokens_view(list@)) + seq![alone(',')]);
            construct("Application", fields)
        },
        _ => fields,
    }
}

impl Expr {
    /// Converts an expression to the tokens of its constructor.
    pub fn to_tokens(&self) -> (out: Vec<Token>)
        ensures
            tokens_view(out@) == constructor_tokens(self@),
        decreases self, 1nat,
    {
        let mut fields: Vec<Token> = Vec::new();
        assert(tokens_view(fields@) =~= Seq::<TokenView>::empty());
        match self {
            Expr::NumberLiteral { text } => {
                let value = single(Token::Literal { text: text.clone() });
                push_field(&mut fields, "text", &value, false);
                assert(tokens_view(fields@) =~= field("text"@, tokens_view(value@)));
                construct("NumberLiteral", fields)
            },
            Expr::BoolLiteral { value } => {
                let text = if *value {
                    "true"
                } else {
                    "false"
                };
                let value = single(Token::Ident { text: text.to_owned() });
                push_field(&mut fields, "value", &value, false);
                assert(tokens_view(fields@) =~= field("value"@, tokens_view(value@)));
                construct("BoolLiteral", fields)
            },
            Expr::StringLiteral { text } => {
                let value = single(Token::Literal { text: text.clone() });
                push_field(&mut fields, "text", &value, false);
                assert(tokens_view(fields@) =~= field("text"@, tokens_view(value@)));
                construct("StringLiteral", fields)
            },
            Expr::Identifier { name, annotation } => {
                let value = single(Token::Ident { text: name.clone() });
                push_field(&mut fields, "name", &value, true);
                let types = type_of(annotation);
                push_field(&mut fields, "annotation", &types, true);
                assert(tokens_view(fields@) =~= field("name"@, tokens_view(value@)) + seq![
                    alone(','),
                ] + field("annotation"@, type_tokens(optional_tokens_view(*annotation))) + seq![
                    alone(','),
                ]);
                construct("Identifier", fields)
            },
            Expr::OperatorLiteral { operator } => {
                let value = operator.to_tokens();
                push_field(&mut fields, "operator", &value, false);
                assert(tokens_view(fields@) =~= field("operator"@, tokens_view(value@)));
                construct("OperatorLiteral", fields)
            },
            _ => composite_to_tokens(self),
        }
    }
}

} // verus!
