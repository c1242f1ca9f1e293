//! What holds of the parser, the printer and the lowering pass together.

use crate::classify::{literal_kind, LiteralKind};
use crate::error::{ArityErrorView, ParseErrorView};
use crate::grammar::{
    braced, clause_at, clause_run, closing_expr, declaration, desugared, expr_at, expr_run,
    expr_width, parameter_at, parameter_run, parsed,
};
use crate::lower::{
    call_tokens, lowered, lowered_arguments, lowered_parameter, lowered_parameters,
    primitive_tokens, procedure_tokens, well_applied,
};
use crate::printer::{lemma_layout_line, line, numbered_trace, printed, trace, TraceLine};
use crate::syntax::{well_formed, ClauseView, ExprView};
use crate::text::spaces;
use crate::token::TokenView;
use vstd::prelude::*;

verus! {

/// The label of the line that a literal token prints as: its kind, a
/// colon and the token's own text. `None` for a token that is no integer,
/// string or boolean literal.
pub open spec fn literal_label(token: TokenView) -> Option<Seq<char>> {
    match token {
        TokenView::Literal { text } => match literal_kind(text) {
            LiteralKind::Int => Some("Number: "@ + text),
            LiteralKind::Str => Some("String: "@ + text),
            LiteralKind::Other => None,
        },
        TokenView::Ident { text } => if text == "true"@ || text == "false"@ {
            Some("Bool: "@ + text)
        } else {
            None
        },
        _ => None,
    }
}

/// A literal token, parsed and printed, yields exactly one line, without
/// indentation, whose payload is the token's text as it was written.
pub proof fn law_literal_prints_verbatim(token: TokenView)
    requires
        literal_label(token) is Some,
    ensures
        printed(seq![token]) == Ok::<Seq<char>, ParseErrorView>(
            literal_label(token)->0 + seq!['\n'],
        ),
        parsed(seq![token]) matches Ok(expr) && trace(expr, 0) == seq![
            line(0, literal_label(token)->0),
        ],
{
    let tokens = seq![token];
    assert(tokens[0] == token);
    assert(expr_width(tokens, 0) == 1);
    let label = literal_label(token)->0;
    lemma_layout_line(0, label);
    assert(spaces(0) + label + seq!['\n'] =~= label + seq!['\n']);
    match token {
        TokenView::Ident { text } => {
            reveal_strlit("true");
            reveal_strlit("false");
            if text == "false"@ {
                assert(text != "true"@) by {
                    assert("true"@.len() == 4);
                    assert("false"@.len() == 5);
                }
            }
        },
        _ => {},
    }
}

/// The names of clauses, in order.
pub open spec fn clause_names(clauses: Seq<ClauseView>) -> Seq<ExprView> {
    Seq::new(clauses.len(), |i: int| clauses[i].name)
}

/// The bindings of clauses, in order.
pub open spec fn clause_bindings(clauses: Seq<ClauseView>) -> Seq<ExprView> {
    Seq::new(clauses.len(), |i: int| clauses[i].binding)
}

/// The application of a procedure that a declaration is sugar for.
pub open spec fn explicit_application(
    clauses: Seq<ClauseView>,
    annotation: Option<Seq<TokenView>>,
    body: ExprView,
) -> ExprView {
    ExprView::Application {
        callee: Box::new(
            ExprView::Procedure {
                parameters: clause_names(clauses),
                body: Box::new(body),
                return_annotation: annotation,
            },
        ),
        arguments: clause_bindings(clauses),
    }
}

/// Lowering a list keeps count and order: part number `i` comes from
/// item number `i`.
pub proof fn law_parameters_keep_order(items: Seq<ExprView>, count: nat)
    requires
        count <= items.len(),
        lowered_parameters(items, count) is Ok,
    ensures
        lowered_parameters(items, count)->Ok_0.len() == count,
        forall|i: int|
            0 <= i < count ==> lowered_parameter(items[i]) == Ok::<
                Seq<TokenView>,
                ArityErrorView,
            >(#[trigger] lowered_parameters(items, count)->Ok_0[i]),
    decreases count,
{
    if count > 0 {
        law_parameters_keep_order(items, (count - 1) as nat);
    }
}

/// Lowering a list keeps count and order: part number `i` comes from
/// item number `i`.
pub proof fn law_arguments_keep_order(items: Seq<ExprView>, count: nat)
    requires
        count <= items.len(),
        lowered_arguments(items, count) is Ok,
    ensures
        lowered_arguments(items, count)->Ok_0.len() == count,
        forall|i: int|
            0 <= i < count ==> lowered(items[i]) == Ok::<Seq<TokenView>, ArityErrorView>(
                #[trigger] lowered_arguments(items, count)->Ok_0[i],
            ),
    decreases count,
{
    if count > 0 {
        law_arguments_keep_order(items, (count - 1) as nat);
    }
}

/// A declaration is the application of a procedure: for any clauses, any
/// annotation and any body it lowers to what the procedure of the names,
/// applied to the bindings, lowers to; where that succeeds, the output
/// is the closure of the lowered names and body, called with the lowered
/// bindings.
pub proof fn law_declaration_is_application(
    clauses: Seq<ClauseView>,
    annotation: Option<Seq<TokenView>>,
    body: ExprView,
)
    ensures
        desugared(clauses, annotation, body) == explicit_application(clauses, annotation, body),
        lowered(desugared(clauses, annotation, body)) == lowered(
            explicit_application(clauses, annotation, body),
        ),
        lowered(desugared(clauses, annotation, body)) matches Ok(code) ==> {
            &&& lowered_parameters(clause_names(clauses), clauses.len()) matches Ok(names)
            &&& lowered(body) matches Ok(body_tokens)
            &&& lowered_arguments(clause_bindings(clauses), clauses.len()) matches Ok(bindings)
            &&& code == call_tokens(procedure_tokens(names, annotation, body_tokens), bindings)
        },
{
    let names = clause_names(clauses);
    let bindings = clause_bindings(clauses);
    assert(names.len() == clauses.len());
    assert(bindings.len() == clauses.len());
    let callee = ExprView::Procedure {
        parameters: names,
        body: Box::new(body),
        return_annotation: annotation,
    };
    assert(lowered(callee) is Ok ==> lowered_parameters(names, clauses.len()) is Ok && lowered(
        body,
    ) is Ok);
    assert(lowered(desugared(clauses, annotation, body)) is Ok ==> lowered(callee) is Ok);
}

/// Clause order is kept from end to end: in what a declaration lowers
/// to, parameter number `i` is the lowered name of clause number `i` and
/// argument number `i` its lowered binding.
pub proof fn law_clause_order(
    clauses: Seq<ClauseView>,
    annotation: Option<Seq<TokenView>>,
    body: ExprView,
    i: int,
)
    requires
        0 <= i < clauses.len(),
        lowered(desugared(clauses, annotation, body)) is Ok,
    ensures
        desugared(clauses, annotation, body) matches ExprView::Application { callee, arguments }
            && *callee matches ExprView::Procedure { parameters, .. } && parameters[i]
            == clauses[i].name && arguments[i] == clauses[i].binding,
        lowered_parameters(clause_names(clauses), clauses.len()) matches Ok(names)
            && names.len() == clauses.len() && lowered_parameter(clauses[i].name) == Ok::<
            Seq<TokenView>,
            ArityErrorView,
        >(names[i]),
        lowered_arguments(clause_bindings(clauses), clauses.len()) matches Ok(bindings)
            && bindings.len() == clauses.len() && lowered(clauses[i].binding) == Ok::<
            Seq<TokenView>,
            ArityErrorView,
        >(bindings[i]),
{
    law_declaration_is_application(clauses, annotation, body);
    let names = clause_names(clauses);
    let bindings = clause_bindings(clauses);
    assert(names.len() == clauses.len());
    assert(bindings.len() == clauses.len());
    law_parameters_keep_order(names, clauses.len());
    law_arguments_keep_order(bindings, clauses.len());
    let lowered_names = lowered_parameters(names, clauses.len())->Ok_0;
    let lowered_bindings = lowered_arguments(bindings, clauses.len())->Ok_0;
    assert(lowered_parameter(names[i]) == Ok::<Seq<TokenView>, ArityErrorView>(lowered_names[i]));
    assert(lowered(bindings[i]) == Ok::<Seq<TokenView>, ArityErrorView>(lowered_bindings[i]));
}

/// A run of clauses takes one token tree for each clause, in order, and
/// stops at the end of the tokens or at the first token tree that is no
/// clause, with the failure of that one.
pub proof fn law_clause_run(tokens: Seq<TokenView>, pos: int)
    requires
        0 <= pos <= tokens.len(),
    ensures
        clause_run(tokens, pos).1 == pos + clause_run(tokens, pos).0.len(),
        clause_run(tokens, pos).1 <= tokens.len(),
        match clause_run(tokens, pos).2 {
            Some(error) => clause_at(tokens, clause_run(tokens, pos).1) == Err::<
                ClauseView,
                ParseErrorView,
            >(error),
            None => clause_run(tokens, pos).1 == tokens.len(),
        },
        forall|i: int|
            0 <= i < clause_run(tokens, pos).0.len() ==> clause_at(tokens, pos + i) == Ok::<
                ClauseView,
                ParseErrorView,
            >(#[trigger] clause_run(tokens, pos).0[i]),
    decreases tokens.len() - pos,
{
    if pos < tokens.len() {
        match clause_at(tokens, pos) {
            Ok(clause) => {
                law_clause_run(tokens, pos + 1);
                let rest = clause_run(tokens, pos + 1).0;
                let all = clause_run(tokens, pos).0;
                assert(all == seq![clause] + rest);
                assert forall|i: int| 0 <= i < all.len() implies clause_at(tokens, pos + i)
                    == Ok::<ClauseView, ParseErrorView>(#[trigger] all[i]) by {
                    if i > 0 {
                        assert(all[i] == rest[i - 1]);
                        assert(pos + i == (pos + 1) + (i - 1));
                    }
                }
            },
            Err(_) => {},
        }
    }
}

/// In a declaration that parses, every token tree of the list is a
/// clause; the procedure has one parameter and the application one
/// argument for each, and number `i` of either comes from clause number
/// `i`.
pub proof fn law_declaration_order(tokens: Seq<TokenView>, i: int)
    requires
        declaration(tokens) is Ok,
        0 <= i < tokens[1]->tokens.len(),
    ensures
        clause_at(tokens[1]->tokens, i) matches Ok(clause) && declaration(tokens) matches Ok(
            ExprView::Application { callee, arguments },
        ) && *callee matches ExprView::Procedure { parameters, .. } && parameters.len()
            == tokens[1]->tokens.len() && arguments.len() == tokens[1]->tokens.len()
            && parameters[i] == clause.name && arguments[i] == clause.binding,
{
    let list = tokens[1]->tokens;
    law_clause_run(list, 0);
    let clauses = clause_run(list, 0).0;
    assert(clauses.len() == list.len());
    assert(clause_at(list, 0 + i) == Ok::<ClauseView, ParseErrorView>(clauses[i]));
}

/// An operator applied to any number of arguments but two is rejected,
/// whatever the arguments are; applied to two it is accepted.
pub proof fn law_operator_arity(
    operator: crate::operator::BinaryOperator,
    arguments: Seq<Seq<TokenView>>,
)
    ensures
        primitive_tokens(operator, arguments) is Ok <==> arguments.len() == 2,
        primitive_tokens(operator, arguments) matches Err(error) ==> error.operator == operator
            && error.found == arguments.len(),
{
}

proof fn lemma_parameters_ok(items: Seq<ExprView>, count: nat)
    requires
        count <= items.len(),
    ensures
        lowered_parameters(items, count) is Ok <==> forall|i: int|
            0 <= i < count ==> lowered_parameter(#[trigger] items[i]) is Ok,
    decreases count,
{
    if count > 0 {
        lemma_parameters_ok(items, (count - 1) as nat);
    }
}

proof fn lemma_arguments_ok(items: Seq<ExprView>, count: nat)
    requires
        count <= items.len(),
    ensures
        lowered_arguments(items, count) is Ok <==> forall|i: int|
            0 <= i < count ==> lowered(#[trigger] items[i]) is Ok,
        lowered_arguments(items, count) matches Ok(parts) ==> parts.len() == count,
    decreases count,
{
    if count > 0 {
        lemma_arguments_ok(items, (count - 1) as nat);
    }
}

/// Lowering succeeds exactly on the expressions in which every applied
/// operator has two arguments: an arity violation anywhere is an error,
/// never a truncated or padded output.
pub proof fn law_lowering_checks_arity(expr: ExprView)
    ensures
        lowered(expr) is Ok <==> well_applied(expr),
    decreases expr,
{
    match expr {
        ExprView::Conditional { guard, then_branch, else_branch } => {
            law_lowering_checks_arity(*guard);
            law_lowering_checks_arity(*then_branch);
            law_lowering_checks_arity(*else_branch);
        },
        ExprView::Procedure { parameters, body, .. } => {
            lemma_parameters_ok(parameters, parameters.len());
            assert forall|i: int| 0 <= i < parameters.len() implies (lowered_parameter(
                #[trigger] parameters[i],
            ) is Ok <==> well_applied(parameters[i])) by {
                law_lowering_checks_arity(parameters[i]);
            }
            law_lowering_checks_arity(*body);
        },
        ExprView::Application { callee, arguments } => {
            law_lowering_checks_arity(*callee);
            lemma_arguments_ok(arguments, arguments.len());
            assert forall|i: int| 0 <= i < arguments.len() implies (lowered(
                #[trigger] arguments[i],
            ) is Ok <==> well_applied(arguments[i])) by {
                law_lowering_checks_arity(arguments[i]);
            }
        },
        _ => {},
    }
}

/// The greater of two numbers.
pub open spec fn larger(a: nat, b: nat) -> nat {
    if a >= b {
        a
    } else {
        b
    }
}

/// The depth of nesting of an expression: none for a leaf, one more than
/// that of its deepest child for a composite.
pub open spec fn height(expr: ExprView) -> nat
    decreases expr, 0nat,
{
    match expr {
        ExprView::Conditional { guard, then_branch, else_branch } => 1 + larger(
            height(*guard),
            larger(height(*then_branch), height(*else_branch)),
        ),
        ExprView::Procedure { parameters, body, .. } => 1 + larger(
            tallest(parameters, parameters.len()),
            height(*body),
        ),
        ExprView::Application { callee, arguments } => 1 + larger(
            height(*callee),
            tallest(arguments, arguments.len()),
        ),
        _ => 0,
    }
}

/// The greatest height among the first `count` of `items`.
pub open spec fn tallest(items: Seq<ExprView>, count: nat) -> nat
    decreases items, count,
{
    if count == 0 || count > items.len() {
        0
    } else {
        larger(tallest(items, (count - 1) as nat), height(items[count - 1]))
    }
}

/// The deepest level of indentation among the lines of a trace.
pub open spec fn deepest(lines: Seq<TraceLine>) -> nat
    decreases lines.len(),
{
    if lines.len() == 0 {
        0
    } else {
        larger(deepest(lines.drop_last()), lines.last().indent)
    }
}

/// No line of `lines` is indented less than `indent`.
pub open spec fn at_least(lines: Seq<TraceLine>, indent: nat) -> bool {
    forall|k: int| 0 <= k < lines.len() ==> (#[trigger] lines[k]).indent >= indent
}

proof fn lemma_deepest_concat(first: Seq<TraceLine>, second: Seq<TraceLine>)
    ensures
        deepest(first + second) == larger(deepest(first), deepest(second)),
    decreases second.len(),
{
    if second.len() == 0 {
        assert(first + second =~= first);
    } else {
        lemma_deepest_concat(first, second.drop_last());
        assert((first + second).drop_last() =~= first + second.drop_last());
        assert((first + second).last() == second.last());
    }
}

proof fn lemma_deepest_line(indent: nat, label: Seq<char>)
    ensures
        deepest(seq![line(indent, label)]) == indent,
{
    let lines = seq![line(indent, label)];
    assert(lines.drop_last() =~= Seq::<TraceLine>::empty());
    assert(deepest(lines.drop_last()) == 0);
}

proof fn lemma_deepest_pair(indent: nat, first: Seq<char>, second: Seq<char>)
    ensures
        deepest(seq![line(indent, first), line(indent, second)]) == indent,
{
    let lines = seq![line(indent, first), line(indent, second)];
    assert(lines =~= seq![line(indent, first)] + seq![line(indent, second)]);
    lemma_deepest_concat(seq![line(indent, first)], seq![line(indent, second)]);
    lemma_deepest_line(indent, first);
    lemma_deepest_line(indent, second);
}

proof fn lemma_numbered_depth(items: Seq<ExprView>, prefix: Seq<char>, indent: nat, count: nat)
    requires
        count <= items.len(),
    ensures
        at_least(numbered_trace(items, prefix, indent, count), indent),
        count > 0 ==> deepest(numbered_trace(items, prefix, indent, count)) == indent + 1
            + tallest(items, count),
        count == 0 ==> numbered_trace(items, prefix, indent, count).len() == 0,
    decreases items, count,
{
    if count > 0 {
        let before = numbered_trace(items, prefix, indent, (count - 1) as nat);
        let label = prefix + crate::text::decimal_text((count - 1) as nat) + ":"@;
        let heading = seq![line(indent, label)];
        let item = trace(items[count - 1], indent + 1);
        lemma_numbered_depth(items, prefix, indent, (count - 1) as nat);
        law_trace_depth(items[count - 1], indent + 1);
        lemma_deepest_concat(before, heading);
        lemma_deepest_concat(before + heading, item);
        lemma_deepest_line(indent, label);
        assert(numbered_trace(items, prefix, indent, count) == before + heading + item);
        if count == 1 {
            assert(deepest(before) == 0);
        }
    }
}

/// Nesting is kept by the printer: the trace of an expression at the
/// level `indent` starts at that level, never goes below it, and its
/// deepest line stands exactly as many levels further in as the
/// expression is high, one level per level of nesting.
pub proof fn law_trace_depth(expr: ExprView, indent: nat)
    ensures
        trace(expr, indent).len() > 0,
        trace(expr, indent)[0].indent == indent,
        at_least(trace(expr, indent), indent),
        deepest(trace(expr, indent)) == indent + height(expr),
    decreases expr, 1nat,
{
    match expr {
        ExprView::Conditional { guard, then_branch, else_branch } => {
            let a = seq![line(indent, "If Expression:"@), line(indent, "Guard:"@)];
            let b = trace(*guard, indent + 1);
            let c = seq![line(indent, "Then:"@)];
            let d = trace(*then_branch, indent + 1);
            let e = seq![line(indent, "Other:"@)];
            let f = trace(*else_branch, indent + 1);
            law_trace_depth(*guard, indent + 1);
            law_trace_depth(*then_branch, indent + 1);
            law_trace_depth(*else_branch, indent + 1);
            lemma_deepest_pair(indent, "If Expression:"@, "Guard:"@);
            lemma_deepest_line(indent, "Then:"@);
            lemma_deepest_line(indent, "Other:"@);
            lemma_deepest_concat(a, b);
            lemma_deepest_concat(a + b, c);
            lemma_deepest_concat(a + b + c, d);
            lemma_deepest_concat(a + b + c + d, e);
            lemma_deepest_concat(a + b + c + d + e, f);
            assert(trace(expr, indent) == a + b + c + d + e + f);
            assert((a + b + c + d + e + f)[0] == a[0]);
        },
        ExprView::Procedure { parameters, body, return_annotation } => {
            let label = "Return Type Annotation: "@ + crate::printer::annotation_text(
                return_annotation,
            );
            let a = seq![line(indent, "Procedure:"@), line(indent, "Parameters:"@)];
            let b = numbered_trace(parameters, "Param "@, indent, parameters.len());
            let c = seq![line(indent, label), line(indent, "Body:"@)];
            let d = trace(*body, indent + 1);
            lemma_numbered_depth(parameters, "Param "@, indent, parameters.len());
            law_trace_depth(*body, indent + 1);
            lemma_deepest_pair(indent, "Procedure:"@, "Parameters:"@);
            lemma_deepest_pair(indent, label, "Body:"@);
            lemma_deepest_concat(a, b);
            lemma_deepest_concat(a + b, c);
            lemma_deepest_concat(a + b + c, d);
            assert(trace(expr, indent) == a + b + c + d);
            assert((a + b + c + d)[0] == a[0]);
        },
        ExprView::Application { callee, arguments } => {
            let a = seq![line(indent, "Application:"@), line(indent, "Procedure:"@)];
            let b = trace(*callee, indent + 1);
            let c = seq![line(indent, "Arguments:"@)];
            let d = numbered_trace(arguments, "Arg "@, indent, arguments.len());
            law_trace_depth(*callee, indent + 1);
            lemma_numbered_depth(arguments, "Arg "@, indent, arguments.len());
            lemma_deepest_pair(indent, "Application:"@, "Procedure:"@);
            lemma_deepest_line(indent, "Arguments:"@);
            lemma_deepest_concat(a, b);
            lemma_deepest_concat(a + b, c);
            lemma_deepest_concat(a + b + c, d);
            assert(trace(expr, indent) == a + b + c + d);
            assert((a + b + c + d)[0] == a[0]);
        },
        ExprView::NumberLiteral { text } => {
            lemma_deepest_line(indent, "Number: "@ + text);
        },
        ExprView::BoolLiteral { value } => {
            lemma_deepest_line(indent, "Bool: "@ + crate::syntax::bool_word(value));
        },
        ExprView::StringLiteral { text } => {
            lemma_deepest_line(indent, "String: "@ + text);
        },
        ExprView::Identifier { name, annotation } => {
            lemma_deepest_line(
                indent,
                "Identifier: "@ + name + " : "@ + crate::printer::annotation_text(annotation),
            );
        },
        ExprView::OperatorLiteral { operator } => {
            lemma_deepest_line(indent, "BinOp: "@ + crate::operator::operator_symbol(operator));
        },
    }
}

/// Every item of `items` is well formed.
pub open spec fn all_well_formed(items: Seq<ExprView>) -> bool {
    forall|i: int| 0 <= i < items.len() ==> well_formed(#[trigger] items[i])
}

/// Every item of `items` is an identifier.
pub open spec fn all_identifiers(items: Seq<ExprView>) -> bool {
    forall|i: int| 0 <= i < items.len() ==> (#[trigger] items[i]) is Identifier
}

/// A run of parameters takes one token tree for each parameter, in
/// order, and stops at the end of the tokens or at the first token that
/// is no parameter, with the failure of that one. Every parameter is an
/// identifier.
pub proof fn law_parameter_run(tokens: Seq<TokenView>, pos: int)
    requires
        0 <= pos <= tokens.len(),
    ensures
        parameter_run(tokens, pos).1 == pos + parameter_run(tokens, pos).0.len(),
        parameter_run(tokens, pos).1 <= tokens.len(),
        match parameter_run(tokens, pos).2 {
            Some(error) => parameter_at(tokens, parameter_run(tokens, pos).1) == Err::<
                ExprView,
                ParseErrorView,
            >(error),
            None => parameter_run(tokens, pos).1 == tokens.len(),
        },
        all_identifiers(parameter_run(tokens, pos).0),
        forall|i: int|
            0 <= i < parameter_run(tokens, pos).0.len() ==> parameter_at(tokens, pos + i)
                == Ok::<ExprView, ParseErrorView>(#[trigger] parameter_run(tokens, pos).0[i]),
    decreases tokens.len() - pos,
{
    if pos < tokens.len() {
        match parameter_at(tokens, pos) {
            Ok(parameter) => {
                law_parameter_run(tokens, pos + 1);
                let rest = parameter_run(tokens, pos + 1).0;
                let all = parameter_run(tokens, pos).0;
                assert(all == seq![parameter] + rest);
                assert forall|i: int| 0 <= i < all.len() implies parameter_at(tokens, pos + i)
                    == Ok::<ExprView, ParseErrorView>(#[trigger] all[i]) && all[i] is Identifier by {
                    if i > 0 {
                        assert(all[i] == rest[i - 1]);
                        assert(pos + i == (pos + 1) + (i - 1));
                    }
                }
            },
            Err(_) => {},
        }
    }
}

/// A run of expressions never moves past a failure: it stops at the end
/// of the tokens, or at the first position where no expression parses,
/// with the failure found there; what it takes starts with the
/// expression at its first position.
pub proof fn law_expr_run(tokens: Seq<TokenView>, pos: int)
    requires
        0 <= pos <= tokens.len(),
    ensures
        pos <= expr_run(tokens, pos).1 <= tokens.len(),
        match expr_run(tokens, pos).2 {
            Some(error) => expr_at(tokens, expr_run(tokens, pos).1) == Err::<
                ExprView,
                ParseErrorView,
            >(error),
            None => expr_run(tokens, pos).1 == tokens.len(),
        },
        expr_run(tokens, pos).0.len() > 0 ==> expr_at(tokens, pos) == Ok::<
            ExprView,
            ParseErrorView,
        >(expr_run(tokens, pos).0[0]),
        expr_run(tokens, pos).0.len() <= expr_run(tokens, pos).1 - pos,
    decreases tokens.len() - pos,
{
    if pos < tokens.len() {
        match expr_at(tokens, pos) {
            Ok(expr) => {
                law_expr_run(tokens, pos + expr_width(tokens, pos));
                let rest = expr_run(tokens, pos + expr_width(tokens, pos)).0;
                assert(expr_run(tokens, pos).0 == seq![expr] + rest);
            },
            Err(_) => {},
        }
    }
}

proof fn lemma_expr_well_formed(tokens: Seq<TokenView>, pos: int)
    ensures
        expr_at(tokens, pos) matches Ok(expr) ==> well_formed(expr),
    decreases tokens, 0nat, 0nat,
{
    if crate::grammar::group_at(tokens, pos, crate::token::Delimiter::Brace) {
        lemma_braced_well_formed(tokens[pos]->tokens);
    }
}

proof fn lemma_closing_well_formed(tokens: Seq<TokenView>, pos: int)
    ensures
        closing_expr(tokens, pos) matches Ok(expr) ==> well_formed(expr),
    decreases tokens, 1nat, 0nat,
{
    lemma_expr_well_formed(tokens, pos);
}

proof fn lemma_run_well_formed(tokens: Seq<TokenView>, pos: int)
    ensures
        all_well_formed(expr_run(tokens, pos).0),
    decreases tokens, 1nat, tokens.len() - pos,
{
    if 0 <= pos < tokens.len() {
        lemma_expr_well_formed(tokens, pos);
        match expr_at(tokens, pos) {
            Ok(expr) => {
                lemma_run_well_formed(tokens, pos + expr_width(tokens, pos));
                let rest = expr_run(tokens, pos + expr_width(tokens, pos)).0;
                let all = expr_run(tokens, pos).0;
                assert(all == seq![expr] + rest);
                assert forall|i: int| 0 <= i < all.len() implies well_formed(#[trigger] all[i]) by {
                    if i > 0 {
                        assert(all[i] == rest[i - 1]);
                    }
                }
            },
            Err(_) => {},
        }
    }
}

proof fn lemma_clauses_well_formed(tokens: Seq<TokenView>, pos: int)
    ensures
        forall|i: int|
            0 <= i < clause_run(tokens, pos).0.len() ==> {
                &&& (#[trigger] clause_run(tokens, pos).0[i]).name is Identifier
                &&& well_formed(clause_run(tokens, pos).0[i].binding)
            },
    decreases tokens, 1nat, tokens.len() - pos,
{
    if 0 <= pos < tokens.len() {
        match clause_at(tokens, pos) {
            Ok(clause) => {
                if crate::grammar::group_at(tokens, pos, crate::token::Delimiter::Bracket) {
                    lemma_closing_well_formed(tokens[pos]->tokens, 1);
                }
                lemma_clauses_well_formed(tokens, pos + 1);
                let rest = clause_run(tokens, pos + 1).0;
                let all = clause_run(tokens, pos).0;
                assert(all == seq![clause] + rest);
                assert forall|i: int| 0 <= i < all.len() implies (#[trigger] all[i]).name is Identifier
                    && well_formed(all[i].binding) by {
                    if i > 0 {
                        assert(all[i] == rest[i - 1]);
                    }
                }
            },
            Err(_) => {},
        }
    }
}

proof fn lemma_braced_well_formed(tokens: Seq<TokenView>)
    ensures
        braced(tokens) matches Ok(expr) ==> well_formed(expr),
    decreases tokens, 3nat, 0nat,
{
    if crate::grammar::word_at(tokens, 0, "if"@) {
        lemma_expr_well_formed(tokens, 1);
        let at_then = 1 + expr_width(tokens, 1);
        lemma_expr_well_formed(tokens, at_then);
        lemma_expr_well_formed(tokens, at_then + expr_width(tokens, at_then));
    } else if crate::grammar::word_at(tokens, 0, "proc"@) {
        if crate::grammar::group_at(tokens, 1, crate::token::Delimiter::Parenthesis) {
            law_parameter_run(tokens[1]->tokens, 0);
            match crate::grammar::annotation_at(tokens, 2) {
                Ok((_, at_body)) => {
                    lemma_closing_well_formed(tokens, at_body);
                },
                Err(_) => {},
            }
        }
    } else if crate::grammar::word_at(tokens, 0, "declare"@) {
        if crate::grammar::group_at(tokens, 1, crate::token::Delimiter::Parenthesis) {
            lemma_clauses_well_formed(tokens[1]->tokens, 0);
            match crate::grammar::annotation_at(tokens, 2) {
                Ok((annotation, at_in)) => {
                    lemma_closing_well_formed(tokens, at_in + 1);
                    match closing_expr(tokens, at_in + 1) {
                        Ok(body) => {
                            let clauses = clause_run(tokens[1]->tokens, 0).0;
                            let callee = ExprView::Procedure {
                                parameters: clause_names(clauses),
                                body: Box::new(body),
                                return_annotation: annotation,
                            };
                            assert forall|i: int| 0 <= i < clauses.len() implies (
                            #[trigger] clause_names(clauses)[i]) is Identifier by {
                                assert(clauses[i].name is Identifier);
                            }
                            assert forall|i: int| 0 <= i < clauses.len() implies well_formed(
                                #[trigger] clause_bindings(clauses)[i],
                            ) by {
                                assert(well_formed(clauses[i].binding));
                            }
                            assert(well_formed(callee));
                            assert(well_formed(explicit_application(clauses, annotation, body)));
                        },
                        Err(_) => {},
                    }
                },
                Err(_) => {},
            }
        }
    } else {
        lemma_expr_well_formed(tokens, 0);
        lemma_run_well_formed(tokens, expr_width(tokens, 0));
    }
}

/// Whatever parses is well formed: the parameters of its procedures are
/// identifiers, checked as the tree is built.
pub proof fn law_parsed_is_well_formed(tokens: Seq<TokenView>)
    ensures
        parsed(tokens) matches Ok(expr) ==> well_formed(expr),
{
    lemma_closing_well_formed(tokens, 0);
}

} // verus!
