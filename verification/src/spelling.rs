//! The spelling of a syntax tree as tokens of the language, and the proof
//! that the parser reads a spelling back as the tree it came from.

use crate::classify::{accepted_identifier, literal_kind, trees_after_type, type_width, LiteralKind};
use crate::error::ParseErrorView;
use crate::grammar::{
    annotation_at, application, braced, clause_at, clause_run, conditional, declaration,
    desugared, expr_at, expr_run, expr_width, parameter_at, parameter_run, parsed, procedure,
    word_at,
};
use crate::laws::{
    clause_bindings, clause_names, explicit_application, law_declaration_is_application,
};
use crate::lower::interpreted;
use crate::operator::{
    double_operator, first_char, operator_tokens, second_char, single_operator, BinaryOperator,
};
use crate::syntax::{
    bool_word, exprs_view, lemma_application_view, lemma_procedure_view, ClauseView, Expr,
    ExprView,
};
use crate::token::{
    alone, extend_tokens, group, lemma_group_view, push_alone, push_group, push_word, single,
    tokens_text, tokens_view, word, Delimiter, Token, TokenView,
};
use vstd::prelude::*;

verus! {

/// The spelling of a parameter: its name, or `[name : type]` where it
/// has a type.
pub open spec fn spelled_parameter(parameter: ExprView) -> TokenView {
    match parameter {
        ExprView::Identifier { name, annotation: Some(tokens) } => group(
            Delimiter::Bracket,
            seq![word(name), alone(':')] + tokens,
        ),
        ExprView::Identifier { name, annotation: None } => word(name),
        _ => group(Delimiter::Bracket, Seq::empty()),
    }
}

/// The spellings of parameters, in order.
pub open spec fn spelled_parameters(parameters: Seq<ExprView>) -> Seq<TokenView> {
    Seq::new(parameters.len(), |i: int| spelled_parameter(parameters[i]))
}

/// The spelling of an optional type: a colon and the type.
pub open spec fn spelled_annotation(annotation: Option<Seq<TokenView>>) -> Seq<TokenView> {
    match annotation {
        Some(tokens) => seq![alone(':')] + tokens,
        None => Seq::empty(),
    }
}

/// The spelling of an expression: an atom as its own token or tokens, a
/// composite as a braced form.
pub open spec fn spelled(expr: ExprView) -> Seq<TokenView>
    decreases expr, 0nat,
{
    match expr {
        ExprView::NumberLiteral { text } => seq![TokenView::Literal { text }],
        ExprView::StringLiteral { text } => seq![TokenView::Literal { text }],
        ExprView::BoolLiteral { value } => seq![word(bool_word(value))],
        ExprView::Identifier { name, .. } => seq![word(name)],
        ExprView::OperatorLiteral { operator } => operator_tokens(operator),
        ExprView::Conditional { guard, then_branch, else_branch } => seq![
            group(
                Delimiter::Brace,
                seq![word("if"@)] + spelled(*guard) + spelled(*then_branch) + spelled(
                    *else_branch,
                ),
            ),
        ],
        ExprView::Procedure { parameters, body, return_annotation } => seq![
            group(
                Delimiter::Brace,
                seq![
                    word("proc"@),
                    group(Delimiter::Parenthesis, spelled_parameters(parameters)),
                ] + spelled_annotation(return_annotation) + spelled(*body),
            ),
        ],
        ExprView::Application { callee, arguments } => seq![
            group(Delimiter::Brace, spelled(*callee) + spelled_from(arguments, 0)),
        ],
    }
}

/// The spellings of the items from number `from` on, one after the
/// other.
pub open spec fn spelled_from(items: Seq<ExprView>, from: nat) -> Seq<TokenView>
    decreases items, items.len() - from,
{
    if from >= items.len() {
        Seq::empty()
    } else {
        spelled(items[from as int]) + spelled_from(items, from + 1)
    }
}

/// A parameter that the parser reads back: an identifier whose type, if
/// it has one, is read as one whole type.
pub open spec fn readable_parameter(parameter: ExprView) -> bool {
    &&& parameter matches ExprView::Identifier { name, annotation }
    &&& accepted_identifier(name)
    &&& annotation matches Some(tokens) ==> trees_after_type(tokens_text(tokens)) == Some(0nat)
}

/// The words that open a form and so cannot head an application.
pub open spec fn form_word(text: Seq<char>) -> bool {
    text == "if"@ || text == "proc"@ || text == "declare"@
}

/// An expression that the parser reads back from its spelling: its
/// literals are of their kind, its identifiers are identifiers and no
/// booleans, its types are read as far as they reach, and no application
/// is headed by a word that opens another form.
pub open spec fn readable(expr: ExprView) -> bool
    decreases expr,
{
    match expr {
        ExprView::NumberLiteral { text } => literal_kind(text) == LiteralKind::Int,
        ExprView::StringLiteral { text } => literal_kind(text) == LiteralKind::Str,
        ExprView::BoolLiteral { .. } => true,
        ExprView::Identifier { name, annotation } => {
            &&& annotation is None
            &&& accepted_identifier(name)
            &&& name != "true"@
            &&& name != "false"@
        },
        ExprView::OperatorLiteral { .. } => true,
        ExprView::Conditional { guard, then_branch, else_branch } => readable(*guard) && readable(
            *then_branch,
        ) && readable(*else_branch),
        ExprView::Procedure { parameters, body, return_annotation } => {
            &&& forall|i: int|
                0 <= i < parameters.len() ==> readable_parameter(#[trigger] parameters[i])
            &&& readable(*body)
            &&& return_annotation matches Some(tokens) ==> trees_after_type(
                tokens_text(tokens + spelled(*body)),
            ) == Some(spelled(*body).len())
        },
        ExprView::Application { callee, arguments } => {
            &&& readable(*callee)
            &&& *callee matches ExprView::Identifier { name, .. } ==> !form_word(name)
            &&& forall|i: int| 0 <= i < arguments.len() ==> readable(#[trigger] arguments[i])
        },
    }
}

/// `tokens` holds `part` from `pos` on.
pub open spec fn holds_at(tokens: Seq<TokenView>, pos: int, part: Seq<TokenView>) -> bool {
    &&& 0 <= pos
    &&& pos + part.len() <= tokens.len()
    &&& tokens.subrange(pos, pos + part.len()) == part
}

proof fn lemma_holds_index(tokens: Seq<TokenView>, pos: int, part: Seq<TokenView>, i: int)
    requires
        holds_at(tokens, pos, part),
        0 <= i < part.len(),
    ensures
        tokens[pos + i] == part[i],
{
    assert(tokens.subrange(pos, pos + part.len())[i] == tokens[pos + i]);
}

proof fn lemma_words_differ()
    ensures
        "true"@ != "false"@,
        !form_word("true"@),
        !form_word("false"@),
        "proc"@ != "if"@,
{
    reveal_strlit("true");
    reveal_strlit("false");
    reveal_strlit("if");
    reveal_strlit("proc");
    reveal_strlit("declare");
    assert("true"@.len() == 4);
    assert("false"@.len() == 5);
    assert("if"@.len() == 2);
    assert("declare"@.len() == 7);
    assert("proc"@[0] == 'p');
    assert("true"@[0] == 't');
}

proof fn lemma_operator_found(operator: BinaryOperator)
    ensures
        match second_char(operator) {
            Some(second) => double_operator(first_char(operator), second) == Some(operator),
            None => single_operator(first_char(operator)) == Some(operator),
        },
        first_char(operator) != ':',
{
}

/// Every spelling has one token, or two for an operator of two
/// characters, and does not start with a colon.
pub proof fn lemma_spelled_shape(expr: ExprView)
    ensures
        1 <= spelled(expr).len() <= 2,
        spelled(expr).len() == 2 ==> expr is OperatorLiteral,
        !(spelled(expr)[0] matches TokenView::Punct { ch, .. } && ch == ':'),
{
    match expr {
        ExprView::OperatorLiteral { operator } => {
            lemma_operator_found(operator);
        },
        _ => {},
    }
}

proof fn lemma_parameter_parses(tokens: Seq<TokenView>, pos: int, parameter: ExprView)
    requires
        readable_parameter(parameter),
        0 <= pos < tokens.len(),
        tokens[pos] == spelled_parameter(parameter),
    ensures
        parameter_at(tokens, pos) == Ok::<ExprView, ParseErrorView>(parameter),
{
    match parameter {
        ExprView::Identifier { name, annotation: Some(types) } => {
            let inner = seq![word(name), alone(':')] + types;
            assert(tokens[pos]->tokens == inner);
            assert(inner[0] == word(name));
            assert(inner[1] == alone(':'));
            assert(inner.subrange(2, inner.len() as int) =~= types);
            assert(type_width(inner, 2) == Some(types.len() as int));
            assert(inner.subrange(2, 2 + (types.len() as int)) =~= types);
        },
        _ => {},
    }
}

proof fn lemma_parameters_parse(parameters: Seq<ExprView>, from: int)
    requires
        0 <= from <= parameters.len(),
        forall|i: int| 0 <= i < parameters.len() ==> readable_parameter(#[trigger] parameters[i]),
    ensures
        parameter_run(spelled_parameters(parameters), from) == (
            parameters.subrange(from, parameters.len() as int),
            parameters.len() as int,
            None::<ParseErrorView>,
        ),
    decreases parameters.len() - from,
{
    let tokens = spelled_parameters(parameters);
    if from < parameters.len() {
        lemma_parameter_parses(tokens, from, parameters[from]);
        lemma_parameters_parse(parameters, from + 1);
        assert(seq![parameters[from]] + parameters.subrange(from + 1, parameters.len() as int)
            =~= parameters.subrange(from, parameters.len() as int));
    } else {
        assert(parameters.subrange(from, parameters.len() as int) =~= Seq::<ExprView>::empty());
    }
}

proof fn lemma_atom_parses(tokens: Seq<TokenView>, pos: int, expr: ExprView)
    requires
        readable(expr),
        holds_at(tokens, pos, spelled(expr)),
        !(expr is Conditional),
        !(expr is Procedure),
        !(expr is Application),
    ensures
        expr_at(tokens, pos) == Ok::<ExprView, ParseErrorView>(expr),
        expr_width(tokens, pos) == spelled(expr).len(),
{
    lemma_words_differ();
    lemma_spelled_shape(expr);
    lemma_holds_index(tokens, pos, spelled(expr), 0);
    match expr {
        ExprView::OperatorLiteral { operator } => {
            lemma_operator_found(operator);
            if second_char(operator) is Some {
                lemma_holds_index(tokens, pos, spelled(expr), 1);
            }
        },
        _ => {},
    }
}

proof fn lemma_conditional_parses(expr: ExprView)
    requires
        readable(expr),
        expr is Conditional,
    ensures
        braced(spelled(expr)[0]->tokens) == Ok::<ExprView, ParseErrorView>(expr),
    decreases expr, 0nat,
{
    match expr {
        ExprView::Conditional { guard, then_branch, else_branch } => {
            let a = spelled(*guard);
            let b = spelled(*then_branch);
            let c = spelled(*else_branch);
            let tokens = seq![word("if"@)] + a + b + c;
            let at_then: int = 1 + (a.len() as int);
            let at_else: int = at_then + b.len();
            let end: int = at_else + c.len();
            assert(spelled(expr)[0]->tokens == tokens);
            assert(tokens[0] == word("if"@));
            assert(tokens.subrange(1, at_then) =~= a);
            assert(tokens.subrange(at_then, at_else) =~= b);
            assert(tokens.subrange(at_else, end) =~= c);
            lemma_spelled_parses(tokens, 1, *guard);
            lemma_spelled_parses(tokens, at_then, *then_branch);
            lemma_spelled_parses(tokens, at_else, *else_branch);
            assert(conditional(tokens) == Ok::<ExprView, ParseErrorView>(expr));
        },
        _ => {},
    }
}

proof fn lemma_procedure_parses(expr: ExprView)
    requires
        readable(expr),
        expr is Procedure,
    ensures
        braced(spelled(expr)[0]->tokens) == Ok::<ExprView, ParseErrorView>(expr),
    decreases expr, 0nat,
{
    lemma_words_differ();
    match expr {
        ExprView::Procedure { parameters, body, return_annotation } => {
            let list = spelled_parameters(parameters);
            let head = seq![word("proc"@), group(Delimiter::Parenthesis, list)];
            let types = spelled_annotation(return_annotation);
            let b = spelled(*body);
            let tokens = head + types + b;
            assert(spelled(expr)[0]->tokens == tokens);
            assert(tokens[0] == word("proc"@));
            assert(tokens[1] == group(Delimiter::Parenthesis, list));
            lemma_parameters_parse(parameters, 0);
            assert(parameters.subrange(0, parameters.len() as int) =~= parameters);
            lemma_spelled_shape(*body);
            match return_annotation {
                Some(annotation) => {
                    assert(tokens[2] == alone(':'));
                    assert(tokens.subrange(3, tokens.len() as int) =~= annotation + b);
                    assert(type_width(tokens, 3) == Some(annotation.len() as int));
                    let at_body: int = 3 + (annotation.len() as int);
                    assert(tokens.subrange(3, at_body) =~= annotation);
                    assert(tokens.subrange(at_body, at_body + b.len()) =~= b);
                    lemma_spelled_parses(tokens, at_body, *body);
                    assert(annotation_at(tokens, 2) == Ok::<
                        (Option<Seq<TokenView>>, int),
                        ParseErrorView,
                    >((Some(annotation), at_body)));
                },
                None => {
                    assert(tokens[2] == b[0]);
                    assert(tokens.subrange(2, 2 + (b.len() as int)) =~= b);
                    lemma_spelled_parses(tokens, 2, *body);
                    assert(annotation_at(tokens, 2) == Ok::<
                        (Option<Seq<TokenView>>, int),
                        ParseErrorView,
                    >((None, 2)));
                },
            }
            assert(procedure(tokens) == Ok::<ExprView, ParseErrorView>(expr));
        },
        _ => {},
    }
}

proof fn lemma_run_parses(tokens: Seq<TokenView>, pos: int, items: Seq<ExprView>, from: nat)
    requires
        forall|i: int| 0 <= i < items.len() ==> readable(#[trigger] items[i]),
        from <= items.len(),
        0 <= pos <= tokens.len(),
        tokens.subrange(pos, tokens.len() as int) == spelled_from(items, from),
    ensures
        expr_run(tokens, pos) == (
            items.subrange(from as int, items.len() as int),
            tokens.len() as int,
            None::<ParseErrorView>,
        ),
    decreases items, items.len() - from,
{
    let rest = tokens.subrange(pos, tokens.len() as int);
    if from < items.len() {
        let first = spelled(items[from as int]);
        let more = spelled_from(items, from + 1);
        lemma_spelled_shape(items[from as int]);
        assert(rest == first + more);
        assert(rest.len() == tokens.len() - pos);
        assert(tokens.subrange(pos, pos + first.len()) =~= first) by {
            assert(rest.subrange(0, first.len() as int) =~= first);
        }
        lemma_spelled_parses(tokens, pos, items[from as int]);
        assert(tokens.subrange(pos + first.len(), tokens.len() as int) =~= more) by {
            assert(rest.subrange(first.len() as int, rest.len() as int) =~= more);
        }
        lemma_run_parses(tokens, pos + first.len(), items, from + 1);
        assert(seq![items[from as int]] + items.subrange(from as int + 1, items.len() as int)
            =~= items.subrange(from as int, items.len() as int));
    } else {
        assert(rest.len() == 0);
        assert(items.subrange(from as int, items.len() as int) =~= Seq::<ExprView>::empty());
    }
}

proof fn lemma_application_parses(expr: ExprView)
    requires
        readable(expr),
        expr is Application,
    ensures
        braced(spelled(expr)[0]->tokens) == Ok::<ExprView, ParseErrorView>(expr),
    decreases expr, 0nat,
{
    lemma_words_differ();
    match expr {
        ExprView::Application { callee, arguments } => {
            let head = spelled(*callee);
            let tail = spelled_from(arguments, 0);
            let tokens = head + tail;
            assert(spelled(expr)[0]->tokens == tokens);
            lemma_spelled_shape(*callee);
            assert(tokens[0] == head[0]);
            assert(tokens.subrange(0, head.len() as int) =~= head);
            lemma_spelled_parses(tokens, 0, *callee);
            assert(tokens.subrange(head.len() as int, tokens.len() as int) =~= tail);
            lemma_run_parses(tokens, head.len() as int, arguments, 0);
            assert(arguments.subrange(0, arguments.len() as int) =~= arguments);
            assert(!word_at(tokens, 0, "if"@));
            assert(!word_at(tokens, 0, "proc"@));
            assert(!word_at(tokens, 0, "declare"@));
            assert(application(tokens) == Ok::<ExprView, ParseErrorView>(expr));
        },
        _ => {},
    }
}

/// Wherever the spelling of a readable expression stands among tokens,
/// the parser reads that expression there, and takes exactly the tokens
/// of the spelling.
pub proof fn lemma_spelled_parses(tokens: Seq<TokenView>, pos: int, expr: ExprView)
    requires
        readable(expr),
        holds_at(tokens, pos, spelled(expr)),
    ensures
        expr_at(tokens, pos) == Ok::<ExprView, ParseErrorView>(expr),
        expr_width(tokens, pos) == spelled(expr).len(),
    decreases expr, 1nat,
{
    lemma_spelled_shape(expr);
    lemma_holds_index(tokens, pos, spelled(expr), 0);
    match expr {
        ExprView::Conditional { .. } => {
            lemma_conditional_parses(expr);
        },
        ExprView::Procedure { .. } => {
            lemma_procedure_parses(expr);
        },
        ExprView::Application { .. } => {
            lemma_application_parses(expr);
        },
        _ => {
            lemma_atom_parses(tokens, pos, expr);
        },
    }
}

/// Spelling and parsing are inverse: the parser reads the spelling of a
/// readable expression back as that expression, whatever its nesting.
pub proof fn law_spelling_parses_back(expr: ExprView)
    requires
        readable(expr),
    ensures
        parsed(spelled(expr)) == Ok::<ExprView, ParseErrorView>(expr),
{
    let tokens = spelled(expr);
    assert(tokens.subrange(0, tokens.len() as int) =~= tokens);
    lemma_spelled_parses(tokens, 0, expr);
}

/// The spelling of a clause: `[name binding]`.
pub open spec fn spelled_clause(clause: ClauseView) -> TokenView {
    group(Delimiter::Bracket, seq![spelled_parameter(clause.name)] + spelled(clause.binding))
}

/// The spelling of a declaration: `{declare (clauses) : type in body}`.
pub open spec fn spelled_declaration(
    clauses: Seq<ClauseView>,
    annotation: Option<Seq<TokenView>>,
    body: ExprView,
) -> Seq<TokenView> {
    seq![
        group(
            Delimiter::Brace,
            seq![
                word("declare"@),
                group(
                    Delimiter::Parenthesis,
                    Seq::new(clauses.len(), |i: int| spelled_clause(clauses[i])),
                ),
            ] + spelled_annotation(annotation) + seq![word("in"@)] + spelled(body),
        ),
    ]
}

/// A declaration that the parser reads back: its names are readable
/// parameters, its bindings and its body readable expressions, and its
/// type, if it has one, is read up to the word `in`.
pub open spec fn readable_declaration(
    clauses: Seq<ClauseView>,
    annotation: Option<Seq<TokenView>>,
    body: ExprView,
) -> bool {
    &&& forall|i: int|
        0 <= i < clauses.len() ==> readable_parameter((#[trigger] clauses[i]).name) && readable(
            clauses[i].binding,
        )
    &&& readable(body)
    &&& annotation matches Some(tokens) ==> trees_after_type(
        tokens_text(tokens + seq![word("in"@)] + spelled(body)),
    ) == Some(1 + spelled(body).len())
}

proof fn lemma_clause_parses(tokens: Seq<TokenView>, pos: int, clause: ClauseView)
    requires
        readable_parameter(clause.name),
        readable(clause.binding),
        0 <= pos < tokens.len(),
        tokens[pos] == spelled_clause(clause),
    ensures
        clause_at(tokens, pos) == Ok::<ClauseView, ParseErrorView>(clause),
{
    let binding = spelled(clause.binding);
    let inner = seq![spelled_parameter(clause.name)] + binding;
    assert(tokens[pos]->tokens == inner);
    assert(inner[0] == spelled_parameter(clause.name));
    lemma_parameter_parses(inner, 0, clause.name);
    lemma_spelled_shape(clause.binding);
    assert(inner.subrange(1, 1 + (binding.len() as int)) =~= binding);
    lemma_spelled_parses(inner, 1, clause.binding);
}

proof fn lemma_clauses_parse(clauses: Seq<ClauseView>, from: int)
    requires
        0 <= from <= clauses.len(),
        forall|i: int|
            0 <= i < clauses.len() ==> readable_parameter((#[trigger] clauses[i]).name)
                && readable(clauses[i].binding),
    ensures
        clause_run(Seq::new(clauses.len(), |i: int| spelled_clause(clauses[i])), from) == (
            clauses.subrange(from, clauses.len() as int),
            clauses.len() as int,
            None::<ParseErrorView>,
        ),
    decreases clauses.len() - from,
{
    let tokens = Seq::new(clauses.len(), |i: int| spelled_clause(clauses[i]));
    if from < clauses.len() {
        lemma_clause_parses(tokens, from, clauses[from]);
        lemma_clauses_parse(clauses, from + 1);
        assert(seq![clauses[from]] + clauses.subrange(from + 1, clauses.len() as int)
            =~= clauses.subrange(from, clauses.len() as int));
    } else {
        assert(clauses.subrange(from, clauses.len() as int) =~= Seq::<ClauseView>::empty());
    }
}

/// The parser reads the spelling of a readable declaration as the
/// procedure of its names, applied to its bindings.
pub proof fn law_declaration_parses(
    clauses: Seq<ClauseView>,
    annotation: Option<Seq<TokenView>>,
    body: ExprView,
)
    requires
        readable_declaration(clauses, annotation, body),
    ensures
        parsed(spelled_declaration(clauses, annotation, body)) == Ok::<ExprView, ParseErrorView>(
            desugared(clauses, annotation, body),
        ),
{
    reveal_strlit("if");
    reveal_strlit("proc");
    reveal_strlit("declare");
    reveal_strlit("in");
    assert("if"@.len() == 2);
    assert("proc"@.len() == 4);
    assert("declare"@.len() == 7);
    let list = Seq::new(clauses.len(), |i: int| spelled_clause(clauses[i]));
    let head = seq![word("declare"@), group(Delimiter::Parenthesis, list)];
    let types = spelled_annotation(annotation);
    let b = spelled(body);
    let tokens = head + types + seq![word("in"@)] + b;
    let all = spelled_declaration(clauses, annotation, body);
    assert(all[0]->tokens == tokens);
    assert(tokens[0] == word("declare"@));
    assert(tokens[1] == group(Delimiter::Parenthesis, list));
    lemma_clauses_parse(clauses, 0);
    assert(clauses.subrange(0, clauses.len() as int) =~= clauses);
    lemma_spelled_shape(body);
    match annotation {
        Some(ty) => {
            let at_in: int = 3 + (ty.len() as int);
            assert(tokens[2] == alone(':'));
            assert(tokens.subrange(3, tokens.len() as int) =~= ty + seq![word("in"@)] + b);
            assert(type_width(tokens, 3) == Some(ty.len() as int));
            assert(tokens.subrange(3, at_in) =~= ty);
            assert(tokens[at_in] == word("in"@));
            assert(tokens.subrange(at_in + 1, at_in + 1 + b.len()) =~= b);
            lemma_spelled_parses(tokens, at_in + 1, body);
            assert(annotation_at(tokens, 2) == Ok::<(Option<Seq<TokenView>>, int), ParseErrorView>(
                (Some(ty), at_in),
            ));
        },
        None => {
            assert(tokens[2] == word("in"@));
            assert(tokens.subrange(3, 3 + (b.len() as int)) =~= b);
            lemma_spelled_parses(tokens, 3, body);
            assert(annotation_at(tokens, 2) == Ok::<(Option<Seq<TokenView>>, int), ParseErrorView>(
                (None, 2),
            ));
        },
    }
    assert(declaration(tokens) == Ok::<ExprView, ParseErrorView>(
        desugared(clauses, annotation, body),
    ));
    assert(braced(tokens) == declaration(tokens));
    assert(expr_width(all, 0) == 1);
}

/// A declaration and the application of a procedure that it stands for
/// are one expression to the parser, and so lower to the same output:
/// `{declare ([x 4] [y 7]) in body}` and `{{proc (x y) body} 4 7}`, for
/// any clauses and body that are readable in both spellings.
pub proof fn law_declaration_equals_application(
    clauses: Seq<ClauseView>,
    annotation: Option<Seq<TokenView>>,
    body: ExprView,
)
    requires
        readable_declaration(clauses, annotation, body),
        annotation matches Some(tokens) ==> trees_after_type(tokens_text(tokens + spelled(body)))
            == Some(spelled(body).len()),
    ensures
        parsed(spelled_declaration(clauses, annotation, body)) == parsed(
            spelled(explicit_application(clauses, annotation, body)),
        ),
        interpreted(spelled_declaration(clauses, annotation, body)) == interpreted(
            spelled(explicit_application(clauses, annotation, body)),
        ),
{
    law_declaration_parses(clauses, annotation, body);
    law_declaration_is_application(clauses, annotation, body);
    let explicit = explicit_application(clauses, annotation, body);
    let callee = ExprView::Procedure {
        parameters: clause_names(clauses),
        body: Box::new(body),
        return_annotation: annotation,
    };
    assert forall|i: int| 0 <= i < clauses.len() implies readable_parameter(
        #[trigger] clause_names(clauses)[i],
    ) by {
        assert(readable_parameter(clauses[i].name));
    }
    assert forall|i: int| 0 <= i < clauses.len() implies readable(
        #[trigger] clause_bindings(clauses)[i],
    ) by {
        assert(readable(clauses[i].binding));
    }
    assert(readable(callee));
    assert(readable(explicit));
    law_spelling_parses_back(explicit);
}

fn spell_parameter(parameter: &Expr) -> (token: Token)
    ensures
        token@ == spelled_parameter(parameter@),
{
    match parameter {
        Expr::Identifier { name, annotation: Some(tokens) } => {
            let mut inner: Vec<Token> = Vec::new();
            assert(tokens_view(inner@) =~= Seq::<TokenView>::empty());
            push_word(&mut inner, name.as_str());
            push_alone(&mut inner, ':');
            extend_tokens(&mut inner, tokens);
            assert(tokens_view(inner@) =~= seq![word(name@), alone(':')] + tokens_view(tokens@));
            let token = Token::Group { delimiter: Delimiter::Bracket, tokens: inner };
            proof {
                lemma_group_view(token);
            }
            token
        },
        Expr::Identifier { name, annotation: None } => Token::Ident { text: name.clone() },
        _ => {
            let inner: Vec<Token> = Vec::new();
            assert(tokens_view(inner@) =~= Seq::<TokenView>::empty());
            let token = Token::Group { delimiter: Delimiter::Bracket, tokens: inner };
            proof {
                lemma_group_view(token);
            }
            token
        },
    }
}

fn spell_parameters(parameters: &Vec<Expr>) -> (tokens: Vec<Token>)
    ensures
        tokens_view(tokens@) == spelled_parameters(exprs_view(parameters@)),
{
    let mut tokens: Vec<Token> = Vec::new();
    let mut i: usize = 0;
    while i < parameters.len()
        invariant
            i <= parameters.len(),
            tokens@.len() == i,
            forall|j: int| 0 <= j < i ==> tokens@[j]@ == spelled_parameter(parameters@[j]@),
        decreases parameters.len() - i,
    {
        tokens.push(spell_parameter(&parameters[i]));
        i += 1;
    }
    assert(tokens_view(tokens@) =~= spelled_parameters(exprs_view(parameters@)));
    tokens
}

fn spell_all(out: &mut Vec<Token>, items: &Vec<Expr>)
    ensures
        tokens_view(final(out)@) == tokens_view(old(out)@) + spelled_from(exprs_view(items@), 0),
    decreases items@,
{
    let ghost views = exprs_view(items@);
    let ghost start = tokens_view(out@);
    let mut i: usize = 0;
    while i < items.len()
        invariant
            i <= items.len(),
            views == exprs_view(items@),
            tokens_view(out@) + spelled_from(views, i as nat) == start + spelled_from(views, 0),
        decreases items.len() - i,
    {
        let ghost before = tokens_view(out@);
        let item = spell(&items[i]);
        extend_tokens(out, &item);
        proof {
            assert(views[i as int] == items@[i as int]@);
            assert(before + spelled_from(views, i as nat) =~= (before + spelled(views[i as int]))
                + spelled_from(views, (i + 1) as nat));
        }
        i += 1;
    }
    assert(tokens_view(out@) + spelled_from(views, items@.len()) =~= tokens_view(out@));
}

fn spell_braced(expr: &Expr) -> (tokens: Vec<Token>)
    requires
        expr is Conditional || expr is Procedure || expr is Application,
    ensures
        tokens_view(tokens@) == spelled(expr@),
    decreases expr, 0nat,
{
    let mut inner: Vec<Token> = Vec::new();
    assert(tokens_view(inner@) =~= Seq::<TokenView>::empty());
    match expr {
        Expr::Conditional { guard, then_branch, else_branch } => {
            push_word(&mut inner, "if");
            let guard_tokens = spell(guard);
            extend_tokens(&mut inner, &guard_tokens);
            let then_tokens = spell(then_branch);
            extend_tokens(&mut inner, &then_tokens);
            let else_tokens = spell(else_branch);
            extend_tokens(&mut inner, &else_tokens);
            assert(tokens_view(inner@) =~= seq![word("if"@)] + spelled((**guard)@) + spelled(
                (**then_branch)@,
            ) + spelled((**else_branch)@));
        },
        Expr::Procedure { parameters, body, return_annotation } => {
            proof {
                lemma_procedure_view(*expr);
            }
            push_word(&mut inner, "proc");
            let list = spell_parameters(parameters);
            push_group(&mut inner, Delimiter::Parenthesis, list);
            match return_annotation {
                Some(tokens) => {
                    push_alone(&mut inner, ':');
                    extend_tokens(&mut inner, tokens);
                },
                None => {},
            }
            let body_tokens = spell(body);
            extend_tokens(&mut inner, &body_tokens);
            assert(tokens_view(inner@) =~= seq![
                word("proc"@),
                group(Delimiter::Parenthesis, spelled_parameters(exprs_view(parameters@))),
            ] + spelled_annotation(crate::token::optional_tokens_view(*return_annotation))
                + spelled((**body)@));
        },
        Expr::Application { callee, arguments } => {
            proof {
                lemma_application_view(*expr);
            }
            let callee_tokens = spell(callee);
            extend_tokens(&mut inner, &callee_tokens);
            spell_all(&mut inner, arguments);
            assert(tokens_view(inner@) =~= spelled((**callee)@) + spelled_from(
                exprs_view(arguments@),
                0,
            ));
        },
        _ => {},
    }
    let token = Token::Group { delimiter: Delimiter::Brace, tokens: inner };
    proof {
        lemma_group_view(token);
    }
    single(token)
}

/// Spells an expression as tokens of the language.
pub fn spell(expr: &Expr) -> (tokens: Vec<Token>)
    ensures
        tokens_view(tokens@) == spelled(expr@),
    decreases expr, 1nat,
{
    match expr {
        Expr::NumberLiteral { text } => single(Token::Literal { text: text.clone() }),
        Expr::StringLiteral { text } => single(Token::Literal { text: text.clone() }),
        Expr::BoolLiteral { value } => {
            let text = if *value {
                "true"
            } else {
                "false"
            };
            single(Token::Ident { text: text.to_owned() })
        },
        Expr::Identifier { name, .. } => single(Token::Ident { text: name.clone() }),
        Expr::OperatorLiteral { operator } => operator.to_tokens(),
        _ => spell_braced(expr),
    }
}

} // verus!
