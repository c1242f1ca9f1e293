//! The abstract syntax tree.

use crate::operator::BinaryOperator;
use crate::token::{clone_tokens, optional_tokens_view, Token, TokenView};
use vstd::prelude::*;

verus! {

/// An expression of the language.
///
/// A type annotation is an opaque run of tokens: it is carried to the
/// output and never interpreted.
#[derive(Debug, PartialEq, Eq)]
pub enum Expr {
    /// An integer literal, as it is spelled.
    NumberLiteral { text: String },
    /// `true` or `false`.
    BoolLiteral { value: bool },
    /// A string literal, as it is spelled, quotes included.
    StringLiteral { text: String },
    /// A name, with the type it was declared with, if any.
    Identifier { name: String, annotation: Option<Vec<Token>> },
    /// A binary operator as a value.
    OperatorLiteral { operator: BinaryOperator },
    /// `{if guard then else}`.
    Conditional { guard: Box<Expr>, then_branch: Box<Expr>, else_branch: Box<Expr> },
    /// `{proc (parameters) : type body}`.
    Procedure { parameters: Vec<Expr>, body: Box<Expr>, return_annotation: Option<Vec<Token>> },
    /// `{callee arguments...}`.
    Application { callee: Box<Expr>, arguments: Vec<Expr> },
}

/// The mathematical value of an [`Expr`].
pub ghost enum ExprView {
    NumberLiteral { text: Seq<char> },
    BoolLiteral { value: bool },
    StringLiteral { text: Seq<char> },
    Identifier { name: Seq<char>, annotation: Option<Seq<TokenView>> },
    OperatorLiteral { operator: BinaryOperator },
    Conditional { guard: Box<ExprView>, then_branch: Box<ExprView>, else_branch: Box<ExprView> },
    Procedure {
        parameters: Seq<ExprView>,
        body: Box<ExprView>,
        return_annotation: Option<Seq<TokenView>>,
    },
    Application { callee: Box<ExprView>, arguments: Seq<ExprView> },
}

/// The mathematical value of one expression.
pub open spec fn expr_view(expr: Expr) -> ExprView
    decreases expr,
{
    match expr {
        Expr::NumberLiteral { text } => ExprView::NumberLiteral { text: text@ },
        Expr::BoolLiteral { value } => ExprView::BoolLiteral { value },
        Expr::StringLiteral { text } => ExprView::StringLiteral { text: text@ },
        Expr::Identifier { name, annotation } => ExprView::Identifier {
            name: name@,
            annotation: optional_tokens_view(annotation),
        },
        Expr::OperatorLiteral { operator } => ExprView::OperatorLiteral { operator },
        Expr::Conditional { guard, then_branch, else_branch } => ExprView::Conditional {
            guard: Box::new(expr_view(*guard)),
            then_branch: Box::new(expr_view(*then_branch)),
            else_branch: Box::new(expr_view(*else_branch)),
        },
        Expr::Procedure { parameters, body, return_annotation } => ExprView::Procedure {
            parameters: Seq::new(
                parameters@.len(),
                |i: int|
                    if 0 <= i < parameters@.len() {
                        expr_view(parameters@[i])
                    } else {
                        ExprView::BoolLiteral { value: false }
                    },
            ),
            body: Box::new(expr_view(*body)),
            return_annotation: optional_tokens_view(return_annotation),
        },
        Expr::Application { callee, arguments } => ExprView::Application {
            callee: Box::new(expr_view(*callee)),
            arguments: Seq::new(
                arguments@.len(),
                |i: int|
                    if 0 <= i < arguments@.len() {
                        expr_view(arguments@[i])
                    } else {
                        ExprView::BoolLiteral { value: false }
                    },
            ),
        },
    }
}

impl View for Expr {
    type V = ExprView;

    open spec fn view(&self) -> ExprView {
        expr_view(*self)
    }
}

/// The word for a boolean.
pub open spec fn bool_word(value: bool) -> Seq<char> {
    if value {
        "true"@
    } else {
        "false"@
    }
}

/// A tree as the parser builds it: the parameters of every procedure
/// are identifiers, and an identifier that stands as an expression has
/// no type.
pub open spec fn well_formed(expr: ExprView) -> bool
    decreases expr,
{
    match expr {
        ExprView::Identifier { annotation, .. } => annotation is None,
        ExprView::Conditional { guard, then_branch, else_branch } => well_formed(*guard)
            && well_formed(*then_branch) && well_formed(*else_branch),
        ExprView::Procedure { parameters, body, .. } => {
            &&& forall|i: int| 0 <= i < parameters.len() ==> (#[trigger] parameters[i]) is Identifier
            &&& well_formed(*body)
        },
        ExprView::Application { callee, arguments } => {
            &&& well_formed(*callee)
            &&& forall|i: int| 0 <= i < arguments.len() ==> well_formed(#[trigger] arguments[i])
        },
        _ => true,
    }
}

/// The views of a sequence of expressions, in order.
pub open spec fn exprs_view(exprs: Seq<Expr>) -> Seq<ExprView> {
    Seq::new(exprs.len(), |i: int| exprs[i]@)
}

/// The view of a procedure, over the views of its parts.
pub proof fn lemma_procedure_view(expr: Expr)
    requires
        expr is Procedure,
    ensures
        expr@ == (ExprView::Procedure {
            parameters: exprs_view(expr->parameters@),
            body: Box::new((*expr->body)@),
            return_annotation: optional_tokens_view(expr->return_annotation),
        }),
{
    assert(expr@->parameters =~= exprs_view(expr->parameters@));
}

/// The view of an application, over the views of its parts.
pub proof fn lemma_application_view(expr: Expr)
    requires
        expr is Application,
    ensures
        expr@ == (ExprView::Application {
            callee: Box::new((*expr->callee)@),
            arguments: exprs_view(expr->arguments@),
        }),
{
    assert(expr@->arguments =~= exprs_view(expr->arguments@));
}

/// The views of a sequence of expressions, extended by one.
pub proof fn lemma_exprs_view_push(exprs: Seq<Expr>, expr: Expr)
    ensures
        exprs_view(exprs.push(expr)) == exprs_view(exprs).push(expr@),
{
    assert(exprs_view(exprs.push(expr)) =~= exprs_view(exprs).push(expr@));
}

fn clone_annotation(annotation: &Option<Vec<Token>>) -> (out: Option<Vec<Token>>)
    ensures
        optional_tokens_view(out) == optional_tokens_view(*annotation),
{
    match annotation {
        Some(tokens) => Some(clone_tokens(tokens)),
        None => None,
    }
}

fn clone_exprs(exprs: &Vec<Expr>) -> (out: Vec<Expr>)
    ensures
        exprs_view(out@) == exprs_view(exprs@),
    decreases exprs@,
{
    let mut out: Vec<Expr> = Vec::new();
    let mut i: usize = 0;
    while i < exprs.len()
        invariant
            i <= exprs.len(),
            out@.len() == i,
            forall|j: int| 0 <= j < i ==> out@[j]@ == exprs@[j]@,
        decreases exprs.len() - i,
    {
        out.push(exprs[i].clone());
        i += 1;
    }
    assert(exprs_view(out@) =~= exprs_view(exprs@));
    out
}

impl Clone for Expr {
    fn clone(&self) -> (out: Self)
        ensures
            out@ == self@,
        decreases self,
    {
        match self {
            Expr::NumberLiteral { text } => Expr::NumberLiteral { text: text.clone() },
            Expr::BoolLiteral { value } => Expr::BoolLiteral { value: *value },
            Expr::StringLiteral { text } => Expr::StringLiteral { text: text.clone() },
            Expr::Identifier { name, annotation } => Expr::Identifier {
                name: name.clone(),
                annotation: clone_annotation(annotation),
            },
            Expr::OperatorLiteral { operator } => Expr::OperatorLiteral { operator: *operator },
            Expr::Conditional { guard, then_branch, else_branch } => Expr::Conditional {
                guard: Box::new((**guard).clone()),
                then_branch: Box::new((**then_branch).clone()),
                else_branch: Box::new((**else_branch).clone()),
            },
            Expr::Procedure { parameters, body, return_annotation } => {
                let out = Expr::Procedure {
                    parameters: clone_exprs(parameters),
                    body: Box::new((**body).clone()),
                    return_annotation: clone_annotation(return_annotation),
                };
                proof {
                    lemma_procedure_view(out);
                    lemma_procedure_view(*self);
                }
                out
            },
            Expr::Application { callee, arguments } => {
                let out = Expr::Application {
                    callee: Box::new((**callee).clone()),
                    arguments: clone_exprs(arguments),
                };
                proof {
                    lemma_application_view(out);
                    lemma_application_view(*self);
                }
                out
            },
        }
    }
}

/// One binding of a `declare` form: a name and the expression bound to
/// it.
#[derive(Debug, PartialEq, Eq)]
pub struct Clause {
    pub name: Expr,
    pub binding: Expr,
}

impl Clone for Clause {
    fn clone(&self) -> (out: Self)
        ensures
            out@ == self@,
    {
        Clause { name: self.name.clone(), binding: self.binding.clone() }
    }
}

/// The mathematical value of a [`Clause`].
pub ghost struct ClauseView {
    pub name: ExprView,
    pub binding: ExprView,
}

impl View for Clause {
    type V = ClauseView;

    open spec fn view(&self) -> ClauseView {
        ClauseView { name: self.name@, binding: self.binding@ }
    }
}

/// The views of a sequence of clauses, in order.
pub open spec fn clauses_view(clauses: Seq<Clause>) -> Seq<ClauseView> {
    Seq::new(clauses.len(), |i: int| clauses[i]@)
}

} // verus!
