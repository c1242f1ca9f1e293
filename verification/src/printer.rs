//! The structural printer: a trace of the shape of a syntax tree, one
//! line per node and per group of children.

use crate::error::{ParseError, ParseErrorView};
use crate::grammar::parsed;
use crate::parser::parse;
use crate::syntax::{
    bool_word, exprs_view, lemma_application_view, lemma_procedure_view, Expr, ExprView,
};
use crate::text::{append_decimal, decimal_text, spaces};
use crate::token::{
    append_tokens_text, optional_tokens_view, tokens_text, tokens_view, Token, TokenView,
};
use crate::operator::operator_symbol;
use vstd::prelude::*;

verus! {

/// One line of a trace: its level of indentation and its label.
pub ghost struct TraceLine {
    pub indent: nat,
    pub label: Seq<char>,
}

/// The line with the label `label` at the level `indent`.
pub open spec fn line(indent: nat, label: Seq<char>) -> TraceLine {
    TraceLine { indent, label }
}

/// The text of an annotation; nothing where there is none.
pub open spec fn annotation_text(annotation: Option<Seq<TokenView>>) -> Seq<char> {
    match annotation {
        Some(tokens) => tokens_text(tokens),
        None => Seq::empty(),
    }
}

/// The trace of an expression at the level `indent`: a leaf is one line
/// with its kind and payload; a composite is a line with its kind, then
/// for each group of children a line with the group's label at the same
/// level, followed by the traces of the children one level deeper.
pub open spec fn trace(expr: ExprView, indent: nat) -> Seq<TraceLine>
    decreases expr, 0nat,
{
    match expr {
        ExprView::NumberLiteral { text } => seq![line(indent, "Number: "@ + text)],
        ExprView::BoolLiteral { value } => seq![line(indent, "Bool: "@ + bool_word(value))],
        ExprView::Identifier { name, annotation } => seq![
            line(indent, "Identifier: "@ + name + " : "@ + annotation_text(annotation)),
        ],
        ExprView::StringLiteral { text } => seq![line(indent, "String: "@ + text)],
        ExprView::OperatorLiteral { operator } => seq![
            line(indent, "BinOp: "@ + operator_symbol(operator)),
        ],
        ExprView::Conditional { guard, then_branch, else_branch } => seq![
            line(indent, "If Expression:"@),
            line(indent, "Guard:"@),
        ] + trace(*guard, indent + 1) + seq![line(indent, "Then:"@)] + trace(
            *then_branch,
            indent + 1,
        ) + seq![line(indent, "Other:"@)] + trace(*else_branch, indent + 1),
        ExprView::Procedure { parameters, body, return_annotation } => seq![
            line(indent, "Procedure:"@),
            line(indent, "Parameters:"@),
        ] + numbered_trace(parameters, "Param "@, indent, parameters.len()) + seq![
            line(indent, "Return Type Annotation: "@ + annotation_text(return_annotation)),
            line(indent, "Body:"@),
        ] + trace(*body, indent + 1),
        ExprView::Application { callee, arguments } => seq![
            line(indent, "Application:"@),
            line(indent, "Procedure:"@),
        ] + trace(*callee, indent + 1) + seq![line(indent, "Arguments:"@)] + numbered_trace(
            arguments,
            "Arg "@,
            indent,
            arguments.len(),
        ),
    }
}

/// The traces of the first `count` of `items`: before each a line with
/// `prefix`, the item's number and a colon, at the level `indent`; the
/// item itself one level deeper.
pub open spec fn numbered_trace(
    items: Seq<ExprView>,
    prefix: Seq<char>,
    indent: nat,
    count: nat,
) -> Seq<TraceLine>
    decreases items, count,
{
    if count == 0 || count > items.len() {
        Seq::empty()
    } else {
        numbered_trace(items, prefix, indent, (count - 1) as nat) + seq![
            line(indent, prefix + decimal_text((count - 1) as nat) + ":"@),
        ] + trace(items[count - 1], indent + 1)
    }
}

/// The text of a trace: each line as two spaces per level, its label and
/// a line feed.
pub open spec fn layout(lines: Seq<TraceLine>) -> Seq<char>
    decreases lines.len(),
{
    if lines.len() == 0 {
        Seq::empty()
    } else {
        layout(lines.drop_last()) + spaces(2 * lines.last().indent) + lines.last().label
            + seq!['\n']
    }
}

/// The text of two traces, one after the other, is the text of the
/// first followed by the text of the second.
pub proof fn lemma_layout_concat(first: Seq<TraceLine>, second: Seq<TraceLine>)
    ensures
        layout(first + second) == layout(first) + layout(second),
    decreases second.len(),
{
    if second.len() == 0 {
        assert(first + second =~= first);
        assert(layout(first) + layout(second) =~= layout(first));
    } else {
        lemma_layout_concat(first, second.drop_last());
        assert((first + second).drop_last() =~= first + second.drop_last());
        assert((first + second).last() == second.last());
        assert(layout(first + second) =~= layout(first) + layout(second));
    }
}

/// The text of a trace of one line.
pub proof fn lemma_layout_line(indent: nat, label: Seq<char>)
    ensures
        layout(seq![line(indent, label)]) == spaces(2 * indent) + label + seq!['\n'],
{
    let lines = seq![line(indent, label)];
    assert(lines.drop_last() =~= Seq::<TraceLine>::empty());
    assert(layout(lines.drop_last()) =~= Seq::<char>::empty());
    assert(layout(lines) =~= spaces(2 * indent) + label + seq!['\n']);
}

fn append_line(out: &mut String, margin: &String, label: &String, Ghost(indent): Ghost<nat>)
    requires
        margin@ == spaces(2 * indent),
    ensures
        final(out)@ == old(out)@ + layout(seq![line(indent, label@)]),
{
    proof {
        lemma_layout_line(indent, label@);
    }
    out.append(margin.as_str());
    out.append(label.as_str());
    crate::text::push_char(out, '\n');
    assert(out@ =~= old(out)@ + (spaces(2 * indent) + label@ + seq!['\n']));
}

fn append_heading(out: &mut String, margin: &String, label: &str, Ghost(indent): Ghost<nat>)
    requires
        margin@ == spaces(2 * indent),
    ensures
        final(out)@ == old(out)@ + layout(seq![line(indent, label@)]),
{
    let owned = label.to_owned();
    append_line(out, margin, &owned, Ghost(indent));
}

fn labelled(kind: &str, payload: &str) -> (label: String)
    ensures
        label@ == kind@ + payload@,
{
    let mut label = kind.to_owned();
    label.append(payload);
    label
}

fn annotation_string(annotation: &Option<Vec<Token>>) -> (text: String)
    ensures
        text@ == annotation_text(optional_tokens_view(*annotation)),
{
    let mut text = String::new();
    match annotation {
        Some(tokens) => {
            append_tokens_text(&mut text, tokens);
            assert(text@ =~= tokens_text(tokens_view(tokens@)));
        },
        None => {},
    }
    text
}

fn deeper(margin: &String, Ghost(indent): Ghost<nat>) -> (inner: String)
    requires
        margin@ == spaces(2 * indent),
    ensures
        inner@ == spaces(2 * (indent + 1)),
{
    let mut inner = margin.clone();
    crate::text::push_char(&mut inner, ' ');
    crate::text::push_char(&mut inner, ' ');
    assert(inner@ =~= spaces(2 * (indent + 1)));
    inner
}

/// A text that ends in the layout of two traces ends in the layout of
/// the two put together.
proof fn lemma_extend(base: Seq<char>, before: Seq<TraceLine>, more: Seq<TraceLine>)
    ensures
        base + layout(before) + layout(more) == base + layout(before + more),
{
    lemma_layout_concat(before, more);
    assert(base + layout(before) + layout(more) =~= base + layout(before + more));
}

fn append_numbered(
    out: &mut String,
    items: &Vec<Expr>,
    prefix: &str,
    margin: &String,
    Ghost(indent): Ghost<nat>,
)
    requires
        margin@ == spaces(2 * indent),
    ensures
        final(out)@ == old(out)@ + layout(
            numbered_trace(exprs_view(items@), prefix@, indent, items@.len()),
        ),
    decreases items@,
{
    let ghost views = exprs_view(items@);
    let ghost base = out@;
    let inner = deeper(margin, Ghost(indent));
    let mut i: usize = 0;
    assert(base + layout(numbered_trace(views, prefix@, indent, 0)) =~= base);
    while i < items.len()
        invariant
            i <= items.len(),
            views == exprs_view(items@),
            margin@ == spaces(2 * indent),
            inner@ == spaces(2 * (indent + 1)),
            out@ == base + layout(numbered_trace(views, prefix@, indent, i as nat)),
        decreases items.len() - i,
    {
        let ghost before = numbered_trace(views, prefix@, indent, i as nat);
        let mut label = prefix.to_owned();
        append_decimal(&mut label, i);
        label.append(":");
        assert(label@ =~= prefix@ + decimal_text(i as nat) + ":"@);
        let ghost heading = seq![line(indent, label@)];
        let ghost item = trace(views[i as int], indent + 1);
        append_line(out, margin, &label, Ghost(indent));
        proof {
            lemma_extend(base, before, heading);
        }
        append_trace(out, &items[i], &inner, Ghost(indent + 1));
        proof {
            lemma_extend(base, before + heading, item);
            assert(numbered_trace(views, prefix@, indent, (i + 1) as nat) == before + heading
                + item);
        }
        i += 1;
    }
}

fn append_conditional(out: &mut String, expr: &Expr, margin: &String, Ghost(indent): Ghost<nat>)
    requires
        margin@ == spaces(2 * indent),
        expr is Conditional,
    ensures
        final(out)@ == old(out)@ + layout(trace(expr@, indent)),
    decreases expr, 0nat,
{
    match expr {
        Expr::Conditional { guard, then_branch, else_branch } => {
            let ghost base = out@;
            let ghost a = seq![line(indent, "If Expression:"@)];
            let ghost b = seq![line(indent, "Guard:"@)];
            let ghost c = trace((**guard)@, indent + 1);
            let ghost d = seq![line(indent, "Then:"@)];
            let ghost e = trace((**then_branch)@, indent + 1);
            let ghost f = seq![line(indent, "Other:"@)];
            let ghost g = trace((**else_branch)@, indent + 1);
            let inner = deeper(margin, Ghost(indent));
            append_heading(out, margin, "If Expression:", Ghost(indent));
            append_heading(out, margin, "Guard:", Ghost(indent));
            proof {
                lemma_extend(base, a, b);
            }
            append_trace(out, guard, &inner, Ghost(indent + 1));
            proof {
                lemma_extend(base, a + b, c);
            }
            append_heading(out, margin, "Then:", Ghost(indent));
            proof {
                lemma_extend(base, a + b + c, d);
            }
            append_trace(out, then_branch, &inner, Ghost(indent + 1));
            proof {
                lemma_extend(base, a + b + c + d, e);
            }
            append_heading(out, margin, "Other:", Ghost(indent));
            proof {
                lemma_extend(base, a + b + c + d + e, f);
            }
            append_trace(out, else_branch, &inner, Ghost(indent + 1));
            proof {
                lemma_extend(base, a + b + c + d + e + f, g);
                assert(a + b =~= seq![
                    line(indent, "If Expression:"@),
                    line(indent, "Guard:"@),
                ]);
                assert(trace(expr@, indent) == a + b + c + d + e + f + g);
            }
        },
        _ => {},
    }
}

fn append_procedure(out: &mut String, expr: &Expr, margin: &String, Ghost(indent): Ghost<nat>)
    requires
        margin@ == spaces(2 * indent),
        expr is Procedure,
    ensures
        final(out)@ == old(out)@ + layout(trace(expr@, indent)),
    decreases expr, 0nat,
{
    match expr {
        Expr::Procedure { parameters, body, return_annotation } => {
            proof {
                lemma_procedure_view(*expr);
            }
            let ghost base = out@;
            let text = annotation_string(return_annotation);
            let label = labelled("Return Type Annotation: ", text.as_str());
            let ghost a = seq![line(indent, "Procedure:"@)];
            let ghost b = seq![line(indent, "Parameters:"@)];
            let ghost c = numbered_trace(
                exprs_view(parameters@),
                "Param "@,
                indent,
                parameters@.len(),
            );
            let ghost d = seq![line(indent, label@)];
            let ghost e = seq![line(indent, "Body:"@)];
            let ghost f = trace((**body)@, indent + 1);
            let inner = deeper(margin, Ghost(indent));
            append_heading(out, margin, "Procedure:", Ghost(indent));
            append_heading(out, margin, "Parameters:", Ghost(indent));
            proof {
                lemma_extend(base, a, b);
            }
            append_numbered(out, parameters, "Param ", margin, Ghost(indent));
            proof {
                lemma_extend(base, a + b, c);
            }
            append_line(out, margin, &label, Ghost(indent));
            proof {
                lemma_extend(base, a + b + c, d);
            }
            append_heading(out, margin, "Body:", Ghost(indent));
            proof {
                lemma_extend(base, a + b + c + d, e);
            }
            append_trace(out, body, &inner, Ghost(indent + 1));
            proof {
                lemma_extend(base, a + b + c + d + e, f);
                assert(a + b =~= seq![line(indent, "Procedure:"@), line(indent, "Parameters:"@)]);
                assert(d + e =~= seq![line(indent, label@), line(indent, "Body:"@)]);
                assert(a + b + c + d + e + f =~= (a + b) + c + (d + e) + f);
                assert(trace(expr@, indent) == (a + b) + c + (d + e) + f);
            }
        },
        _ => {},
    }
}

fn append_application(out: &mut String, expr: &Expr, margin: &String, Ghost(indent): Ghost<nat>)
    requires
        margin@ == spaces(2 * indent),
        expr is Application,
    ensures
        final(out)@ == old(out)@ + layout(trace(expr@, indent)),
    decreases expr, 0nat,
{
    match expr {
        Expr::Application { callee, arguments } => {
            proof {
                lemma_application_view(*expr);
            }
            let ghost base = out@;
            let ghost a = seq![line(indent, "Application:"@)];
            let ghost b = seq![line(indent, "Procedure:"@)];
            let ghost c = trace((**callee)@, indent + 1);
            let ghost d = seq![line(indent, "Arguments:"@)];
            let ghost e = numbered_trace(
                exprs_view(arguments@),
                "Arg "@,
                indent,
                arguments@.len(),
            );
            let inner = deeper(margin, Ghost(indent));
            append_heading(out, margin, "Application:", Ghost(indent));
            append_heading(out, margin, "Procedure:", Ghost(indent));
            proof {
                lemma_extend(base, a, b);
            }
            append_trace(out, callee, &inner, Ghost(indent + 1));
            proof {
                lemma_extend(base, a + b, c);
            }
            append_heading(out, margin, "Arguments:", Ghost(indent));
            proof {
                lemma_extend(base, a + b + c, d);
            }
            append_numbered(out, arguments, "Arg ", margin, Ghost(indent));
            proof {
                lemma_extend(base, a + b + c + d, e);
                assert(a + b =~= seq![line(indent, "Application:"@), line(indent, "Procedure:"@)]);
                assert(trace(expr@, indent) == a + b + c + d + e);
            }
        },
        _ => {},
    }
}

fn append_trace(out: &mut String, expr: &Expr, margin: &String, Ghost(indent): Ghost<nat>)
    requires
        margin@ == spaces(2 * indent),
    ensures
        final(out)@ == old(out)@ + layout(trace(expr@, indent)),
    decreases expr, 1nat,
{
    match expr {
        Expr::NumberLiteral { text } => {
            let label = labelled("Number: ", text.as_str());
            append_line(out, margin, &label, Ghost(indent));
        },
        Expr::BoolLiteral { value } => {
            let label = labelled(
                "Bool: ",
                if *value {
                    "true"
                } else {
                    "false"
                },
            );
            append_line(out, margin, &label, Ghost(indent));
        },
        Expr::Identifier { name, annotation } => {
            let mut label = labelled("Identifier: ", name.as_str());
            label.append(" : ");
            let text = annotation_string(annotation);
            label.append(text.as_str());
            append_line(out, margin, &label, Ghost(indent));
        },
        Expr::StringLiteral { text } => {
            let label = labelled("String: ", text.as_str());
            append_line(out, margin, &label, Ghost(indent));
        },
        Expr::OperatorLiteral { operator } => {
            let symbol = operator.symbol();
            let label = labelled("BinOp: ", symbol.as_str());
            append_line(out, margin, &label, Ghost(indent));
        },
        Expr::Conditional { .. } => append_conditional(out, expr, margin, Ghost(indent)),
        Expr::Procedure { .. } => append_procedure(out, expr, margin, Ghost(indent)),
        Expr::Application { .. } => append_application(out, expr, margin, Ghost(indent)),
    }
}

/// Prints the trace of `expr`, starting at the level `indent`.
pub fn generate_print_expr(expr: &Expr, indent: usize) -> (text: String)
    ensures
        text@ == layout(trace(expr@, indent as nat)),
{
    let mut margin = String::new();
    let mut i: usize = 0;
    assert(margin@ =~= spaces(0));
    while i < indent
        invariant
            i <= indent,
            margin@ == spaces(2 * (i as nat)),
        decreases indent - i,
    {
        margin = deeper(&margin, Ghost(i as nat));
        i += 1;
    }
    let mut out = String::new();
    append_trace(&mut out, expr, &margin, Ghost(indent as nat));
    assert(out@ =~= layout(trace(expr@, indent as nat)));
    out
}

/// What printing a whole input yields: the text of the trace of the
/// expression it spells, or the failure to parse it.
pub open spec fn printed(tokens: Seq<TokenView>) -> Result<Seq<char>, ParseErrorView> {
    match parsed(tokens) {
        Ok(expr) => Ok(layout(trace(expr, 0))),
        Err(error) => Err(error),
    }
}

/// Parses a whole input and prints the trace of the expression.
pub fn print_ast(tokens: &Vec<Token>) -> (outcome: Result<String, ParseError>)
    ensures
        match outcome {
            Ok(text) => printed(tokens_view(tokens@)) == Ok::<Seq<char>, ParseErrorView>(text@),
            Err(error) => printed(tokens_view(tokens@)) == Err::<Seq<char>, ParseErrorView>(
                error@,
            ),
        },
{
    match parse(tokens) {
        Ok(expr) => Ok(generate_print_expr(&expr, 0)),
        Err(error) => Err(error),
    }
}

} // verus!
