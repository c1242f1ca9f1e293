use exprlang::classify::{measure_type, width_of_type, LiteralKind};
use exprlang::error::{ArityError, InterpError, ParseError, ParseErrorKind};
use exprlang::lexer::{lex, tokens_from_stream, SourceError};
use exprlang::lower::{handle_prim, handle_proc, join_tokens, walk_ast};
use exprlang::operator::{match_operator, peek_op, BinaryOperator};
use exprlang::parser::{
    classified_annotation_at, classified_atom_at, classified_parameter_at, desugar, parse,
    parse_application, parse_atoms, parse_declare, parse_if_expr,
    parse_optional_annotation, parse_procedure, parse_type_annotation, parse_zero_or_more,
    parse_zero_or_more_clauses, parse_zero_or_more_compound, split_clauses, width_at,
};
use exprlang::printer::generate_print_expr;
use exprlang::syntax::{Clause, Expr};
use exprlang::text::{append_decimal, text_is};
use exprlang::token::{clone_range, splice_invisible, tokens_to_string, Delimiter, Token};
use exprlang::vecs::reversed;
use exprlang::{interp, print_ast};

fn toks(source: &str) -> Vec<Token> {
    lex(source).expect("the source lexes")
}

fn name(text: &str) -> Expr {
    Expr::Identifier { name: text.to_string(), annotation: None }
}

fn number(text: &str) -> Expr {
    Expr::NumberLiteral { text: text.to_string() }
}

fn operator(operator: BinaryOperator) -> Expr {
    Expr::OperatorLiteral { operator }
}

fn failure(kind: ParseErrorKind, location: &[usize]) -> ParseError {
    ParseError { kind, location: location.to_vec() }
}

#[test]
fn lexer_rejects_unbalanced_text() {
    assert_eq!(lex("{+ 4 7"), Err(SourceError {}));
    assert_eq!(lex("\"open"), Err(SourceError {}));
}

#[test]
fn lexer_marks_joint_punctuation() {
    let expected = vec![
        Token::Ident { text: "a".to_string() },
        Token::Punct { ch: '<', joint: true },
        Token::Punct { ch: '=', joint: false },
        Token::Ident { text: "b".to_string() },
        Token::Punct { ch: '<', joint: false },
        Token::Punct { ch: '=', joint: false },
    ];
    assert_eq!(toks("a <= b < ="), expected);
}

#[test]
fn lexer_nests_groups() {
    let expected = vec![Token::Group {
        delimiter: Delimiter::Parenthesis,
        tokens: vec![
            Token::Group { delimiter: Delimiter::Bracket, tokens: vec![] },
            Token::Group {
                delimiter: Delimiter::Brace,
                tokens: vec![Token::Literal { text: "'c'".to_string() }],
            },
        ],
    }];
    assert_eq!(toks("([] {'c'})"), expected);
}

#[test]
fn stream_conversion_keeps_every_tree() {
    let stream: proc_macro2::TokenStream = "f(x, 1) + [y]".parse().unwrap();
    assert_eq!(tokens_from_stream(stream), toks("f(x, 1) + [y]"));
}

#[test]
fn text_of_tokens_spaces_all_but_joint_punctuation() {
    assert_eq!(tokens_to_string(&toks("a<=b")), "a <= b");
    assert_eq!(tokens_to_string(&toks("f ( x , [ 1 ] ) { }")), "f (x , [1]) {}");
    assert_eq!(tokens_to_string(&toks("( | a : u32 | -> u32 { a } ) ( 7 )")), "(| a : u32 | -> u32 {a}) (7)");
    assert_eq!(tokens_to_string(&Vec::new()), "");
    let invisible = vec![Token::Group {
        delimiter: Delimiter::Invisible,
        tokens: toks("a b"),
    }];
    assert_eq!(tokens_to_string(&invisible), "a b");
}

#[test]
fn every_operator_is_matched_and_spelled() {
    let table = [
        ("+", BinaryOperator::Add),
        ("-", BinaryOperator::Sub),
        ("*", BinaryOperator::Mul),
        ("/", BinaryOperator::Div),
        ("%", BinaryOperator::Rem),
        ("&", BinaryOperator::BitAnd),
        ("|", BinaryOperator::BitOr),
        ("^", BinaryOperator::BitXor),
        ("<<", BinaryOperator::Shl),
        (">>", BinaryOperator::Shr),
        ("==", BinaryOperator::Eq),
        ("<=", BinaryOperator::Le),
        (">=", BinaryOperator::Ge),
        ("<", BinaryOperator::Lt),
        (">", BinaryOperator::Gt),
        ("!=", BinaryOperator::Ne),
        ("&&", BinaryOperator::And),
        ("||", BinaryOperator::Or),
    ];
    for (symbol, operator) in table {
        let tokens = toks(symbol);
        assert!(peek_op(&tokens, 0), "{symbol}");
        assert_eq!(match_operator(&tokens, 0), Some(operator), "{symbol}");
        assert_eq!(operator.symbol(), symbol);
        assert_eq!(width_at(&tokens, 0), symbol.len());
        assert_eq!(operator.to_tokens(), tokens);
        assert_eq!(parse(&tokens), Ok(Expr::OperatorLiteral { operator }));
    }
}

#[test]
fn other_punctuation_is_no_operator() {
    for symbol in ["=", "!", ":", ",", ";", ".", "?", "#", "~", "@", "$"] {
        let tokens = toks(symbol);
        assert!(!peek_op(&tokens, 0), "{symbol}");
        assert_eq!(match_operator(&tokens, 0), None, "{symbol}");
    }
    assert!(!peek_op(&toks("a"), 0));
    assert!(!peek_op(&toks("+"), 1));
    assert!(!peek_op(&Vec::new(), 0));
}

#[test]
fn peeking_consumes_nothing() {
    let tokens = toks("+ 1 2");
    let before = tokens.clone();
    assert!(peek_op(&tokens, 0));
    assert!(peek_op(&tokens, 0));
    assert_eq!(tokens, before);
}

#[test]
fn operator_characters_apart_are_two_operators() {
    let tokens = toks("< <");
    assert_eq!(match_operator(&tokens, 0), Some(BinaryOperator::Lt));
    assert_eq!(width_at(&tokens, 0), 1);
    assert_eq!(match_operator(&tokens, 1), Some(BinaryOperator::Lt));
    let (items, end, stopped) = parse_zero_or_more(&tokens, 0);
    assert_eq!(items, vec![operator(BinaryOperator::Lt), operator(BinaryOperator::Lt)]);
    assert_eq!(end, 2);
    assert_eq!(stopped, None);
}

#[test]
fn compound_assignment_is_rejected() {
    assert_eq!(parse(&toks("{+= a b}")), Err(failure(ParseErrorKind::MalformedAtom, &[0, 1])));
}

#[test]
fn atoms_are_tried_in_order() {
    assert_eq!(
        parse_atoms(&toks("\"s\""), 0),
        Ok(Expr::StringLiteral { text: "\"s\"".to_string() })
    );
    assert_eq!(parse_atoms(&toks("r#\"raw\"#"), 0), Ok(Expr::StringLiteral {
        text: "r#\"raw\"#".to_string()
    }));
    assert_eq!(parse_atoms(&toks("12"), 0), Ok(number("12")));
    assert_eq!(parse_atoms(&toks("true"), 0), Ok(Expr::BoolLiteral { value: true }));
    assert_eq!(parse_atoms(&toks("false"), 0), Ok(Expr::BoolLiteral { value: false }));
    assert_eq!(parse_atoms(&toks("x"), 0), Ok(name("x")));
    assert_eq!(parse_atoms(&toks("r#if"), 0), Ok(name("r#if")));
    assert_eq!(parse_atoms(&toks("a >= b"), 1), Ok(operator(BinaryOperator::Ge)));
    for source in ["1.0", "'c'", "b\"bytes\"", "b'x'", "if", "_", "()", "[]", ","] {
        assert_eq!(
            parse_atoms(&toks(source), 0),
            Err(failure(ParseErrorKind::MalformedAtom, &[0])),
            "{source}"
        );
    }
    assert_eq!(parse_atoms(&toks("x"), 1), Err(failure(ParseErrorKind::MissingExpression, &[1])));
    assert_eq!(parse_atoms(&toks("x"), 9), Err(failure(ParseErrorKind::MissingExpression, &[9])));
}

#[test]
fn minus_before_a_number_is_an_operator() {
    let expected = Expr::Application {
        callee: Box::new(operator(BinaryOperator::Sub)),
        arguments: vec![number("5"), number("3")],
    };
    assert_eq!(parse(&toks("{- 5 3}")), Ok(expected));
    assert_eq!(interp(&toks("{- 5 3}")), Ok(toks("(5 - 3)")));
}

#[test]
fn expression_parse_descends_into_braces() {
    let tokens = toks("x {f 1} y");
    assert_eq!(Expr::parse(&tokens, 0), Ok(name("x")));
    assert_eq!(
        Expr::parse(&tokens, 1),
        Ok(Expr::Application { callee: Box::new(name("f")), arguments: vec![number("1")] })
    );
    assert_eq!(Expr::parse(&tokens, 3), Err(failure(ParseErrorKind::MissingExpression, &[3])));
    assert_eq!(
        Expr::parse(&toks("x {f :}"), 1),
        Err(failure(ParseErrorKind::MalformedAtom, &[1, 1]))
    );
}

#[test]
fn repetition_stops_where_parsing_fails() {
    let tokens = toks("a {f} : b");
    let stop = Some(failure(ParseErrorKind::MalformedAtom, &[2]));
    let (items, end, stopped) = parse_zero_or_more(&tokens, 0);
    assert_eq!(
        items,
        vec![name("a"), Expr::Application { callee: Box::new(name("f")), arguments: vec![] }]
    );
    assert_eq!(end, 2);
    assert_eq!(stopped, stop);
    assert_eq!(parse_zero_or_more(&tokens, 2), (vec![], 2, stop));
    assert_eq!(parse_zero_or_more(&tokens, 3), (vec![name("b")], 4, None));
    assert_eq!(parse_zero_or_more(&tokens, 7), (vec![], 7, None));
}

#[test]
fn a_failed_trial_inside_a_group_does_not_advance() {
    let tokens = toks("a {if b} c");
    let (items, end, stopped) = parse_zero_or_more(&tokens, 0);
    assert_eq!(items, vec![name("a")]);
    assert_eq!(end, 1);
    assert_eq!(stopped, Some(failure(ParseErrorKind::MissingExpression, &[1, 2])));
    assert_eq!(
        parse(&toks("{f a {if b} c}")),
        Err(failure(ParseErrorKind::MissingExpression, &[0, 2, 2]))
    );
}

#[test]
fn parameters_are_bare_or_typed() {
    let tokens = toks("a [b : Vec<u8>] 3");
    assert_eq!(parse_optional_annotation(&tokens, 0), Ok(name("a")));
    assert_eq!(
        parse_optional_annotation(&tokens, 1),
        Ok(Expr::Identifier { name: "b".to_string(), annotation: Some(toks("Vec<u8>")) })
    );
    assert_eq!(
        parse_optional_annotation(&tokens, 2),
        Err(failure(ParseErrorKind::MissingIdentifier, &[2]))
    );
    assert_eq!(
        parse_optional_annotation(&tokens, 3),
        Err(failure(ParseErrorKind::MissingIdentifier, &[3]))
    );
    assert_eq!(
        parse_optional_annotation(&toks("[]"), 0),
        Err(failure(ParseErrorKind::MissingIdentifier, &[0, 0]))
    );
    assert_eq!(
        parse_optional_annotation(&toks("[a]"), 0),
        Err(failure(ParseErrorKind::MissingColon, &[0, 1]))
    );
    let (items, end, stopped) = parse_zero_or_more_compound(&tokens, 0);
    assert_eq!(items.len(), 2);
    assert_eq!(end, 2);
    assert_eq!(stopped, Some(failure(ParseErrorKind::MissingIdentifier, &[2])));
    assert_eq!(parse_zero_or_more_compound(&toks("a b"), 0).2, None);
}

#[test]
fn type_annotation_takes_as_much_as_a_type() {
    let tokens = toks("x : Vec<(u8, &str)> y z");
    assert_eq!(measure_type(&tokens, 2), Some(4));
    assert_eq!(measure_type(&tokens, 0), Some(1));
    assert_eq!(measure_type(&tokens, 1), None);
    assert_eq!(measure_type(&tokens, 8), None);
    assert_eq!(measure_type(&tokens, 9), None);
    assert_eq!(
        parse_type_annotation(&tokens, 1),
        Ok((Some(toks("Vec<(u8, &str)>")), 6))
    );
    assert_eq!(parse_type_annotation(&tokens, 0), Ok((None, 0)));
    assert_eq!(parse_type_annotation(&tokens, 8), Ok((None, 8)));
    assert_eq!(
        parse_type_annotation(&toks("x : 5"), 1),
        Err(failure(ParseErrorKind::MalformedType, &[2]))
    );
    assert_eq!(
        parse_type_annotation(&toks("x :"), 1),
        Err(failure(ParseErrorKind::MalformedType, &[2]))
    );
}

#[test]
fn forms_require_their_keyword() {
    assert_eq!(parse_if_expr(&toks("a b c")), Err(failure(ParseErrorKind::MissingIf, &[0])));
    assert_eq!(parse_procedure(&toks("(a) a")), Err(failure(ParseErrorKind::MissingProc, &[0])));
    assert_eq!(
        parse_declare(&toks("([x 1]) in x")),
        Err(failure(ParseErrorKind::MissingDeclare, &[0]))
    );
    assert_eq!(parse_if_expr(&Vec::new()), Err(failure(ParseErrorKind::MissingIf, &[0])));
}

#[test]
fn forms_parse_their_contents() {
    assert_eq!(
        parse_if_expr(&toks("if a 1 2")),
        Ok(Expr::Conditional {
            guard: Box::new(name("a")),
            then_branch: Box::new(number("1")),
            else_branch: Box::new(number("2")),
        })
    );
    assert_eq!(
        parse_procedure(&toks("proc () : u8 1")),
        Ok(Expr::Procedure {
            parameters: vec![],
            body: Box::new(number("1")),
            return_annotation: Some(toks("u8")),
        })
    );
    assert_eq!(
        parse_application(&toks("f")),
        Ok(Expr::Application { callee: Box::new(name("f")), arguments: vec![] })
    );
    assert_eq!(
        parse_declare(&toks("declare () in 1")),
        Ok(Expr::Application {
            callee: Box::new(Expr::Procedure {
                parameters: vec![],
                body: Box::new(number("1")),
                return_annotation: None,
            }),
            arguments: vec![],
        })
    );
}

#[test]
fn two_character_operators_take_two_tokens() {
    assert_eq!(
        parse_if_expr(&toks("if == <= >>")),
        Ok(Expr::Conditional {
            guard: Box::new(operator(BinaryOperator::Eq)),
            then_branch: Box::new(operator(BinaryOperator::Le)),
            else_branch: Box::new(operator(BinaryOperator::Shr)),
        })
    );
    assert_eq!(interp(&toks("{<= a b}")), Ok(toks("(a <= b)")));
    assert_eq!(interp(&toks("{&& a {|| b c}}")), Ok(toks("(a && (b || c))")));
}

#[test]
fn clauses_split_into_names_and_bindings() {
    let tokens = toks("[x 1] [[y : u8] {f x}] z");
    let (clauses, end, stopped) = parse_zero_or_more_clauses(&tokens, 0);
    assert_eq!(end, 2);
    assert_eq!(stopped, Some(failure(ParseErrorKind::MissingClauseBrackets, &[2])));
    let typed = Expr::Identifier { name: "y".to_string(), annotation: Some(toks("u8")) };
    let call = Expr::Application { callee: Box::new(name("f")), arguments: vec![name("x")] };
    assert_eq!(
        clauses,
        vec![
            Clause { name: name("x"), binding: number("1") },
            Clause { name: typed.clone(), binding: call.clone() },
        ]
    );
    assert_eq!(Clause::parse(&tokens, 2), Err(failure(ParseErrorKind::MissingClauseBrackets, &[2])));
    assert_eq!(
        Clause::parse(&toks("[x]"), 0),
        Err(failure(ParseErrorKind::MissingExpression, &[0, 1]))
    );
    assert_eq!(
        Clause::parse(&toks("[1 x]"), 0),
        Err(failure(ParseErrorKind::MissingIdentifier, &[0, 0]))
    );
    let (names, bindings) = split_clauses(clauses.clone());
    assert_eq!(names, vec![name("x"), typed.clone()]);
    assert_eq!(bindings, vec![number("1"), call.clone()]);
    let expr = desugar(clauses, Some(toks("u8")), name("y"));
    assert_eq!(
        expr,
        Expr::Application {
            callee: Box::new(Expr::Procedure {
                parameters: vec![name("x"), typed],
                body: Box::new(name("y")),
                return_annotation: Some(toks("u8")),
            }),
            arguments: vec![number("1"), call],
        }
    );
    assert_eq!(walk_ast(&expr), Ok(toks("(|x, y: u8| -> u8 { y })(1, f(x))")));
}

#[test]
fn an_incomplete_clause_is_an_error() {
    assert_eq!(
        parse(&toks("{declare ([x]) in 5}")),
        Err(failure(ParseErrorKind::MissingExpression, &[0, 1, 0, 1]))
    );
}

#[test]
fn annotated_identifier_loses_its_type_outside_parameters() {
    let typed = Expr::Identifier { name: "a".to_string(), annotation: Some(toks("u32")) };
    assert_eq!(walk_ast(&typed), Ok(toks("a")));
    let lambda = Expr::Procedure {
        parameters: vec![typed.clone(), number("1")],
        body: Box::new(typed),
        return_annotation: None,
    };
    assert_eq!(walk_ast(&lambda), Ok(toks("(|a: u32, 1| a)")));
}

#[test]
fn procedure_without_parameters() {
    assert_eq!(interp(&toks("{{proc () 1}}")), Ok(toks("(| | 1)()")));
}

#[test]
fn operator_needs_exactly_two_arguments() {
    let one = vec![toks("1")];
    let two = vec![toks("1"), toks("f(2)")];
    let add = BinaryOperator::Add;
    assert_eq!(handle_prim(add, two), Ok(toks("(1 + f(2))")));
    assert_eq!(handle_prim(add, one), Err(ArityError { operator: add, found: 1, location: vec![] }));
    assert_eq!(
        handle_prim(BinaryOperator::Shl, vec![]),
        Err(ArityError { operator: BinaryOperator::Shl, found: 0, location: vec![] })
    );
    for source in ["{+}", "{+ 1}", "{+ 1 2 3}", "{+ 1 2 3 4}"] {
        assert!(matches!(interp(&toks(source)), Err(InterpError::Arity(_))), "{source}");
    }
}

#[test]
fn arity_error_names_the_node() {
    let at = |location: &[usize]| {
        Err(InterpError::Arity(ArityError {
            operator: BinaryOperator::Mul,
            found: 1,
            location: location.to_vec(),
        }))
    };
    assert_eq!(interp(&toks("{* 1}")), at(&[]));
    assert_eq!(interp(&toks("{f a {* 1}}")), at(&[2]));
    assert_eq!(interp(&toks("{{* 1} a}")), at(&[0]));
    assert_eq!(interp(&toks("{if a {* 1} c}")), at(&[1]));
    assert_eq!(interp(&toks("{if a b {g {* 1}}}")), at(&[2, 1]));
    assert_eq!(interp(&toks("{proc (a b) {* 1}}")), at(&[2]));
    assert_eq!(interp(&toks("{declare ([a {* 1}]) in a}")), at(&[1]));
    assert_eq!(interp(&toks("{+ {* 1} {+ 1}}")), at(&[1]));
    assert_eq!(interp(&toks("{+ {* 1} 2 3}")), at(&[1]));
    let message = ArityError { operator: BinaryOperator::Mul, found: 1, location: vec![] }.message();
    assert_eq!(message, "Arity Error");
}

#[test]
fn operator_as_argument_is_a_value() {
    assert_eq!(interp(&toks("{fold + 0 xs}")), Ok(toks("fold(+ , 0, xs)")));
}

#[test]
fn calls_join_arguments_with_commas() {
    assert_eq!(handle_proc(toks("f"), vec![]), toks("f()"));
    assert_eq!(handle_proc(toks("f"), vec![toks("1")]), toks("f(1)"));
    assert_eq!(handle_proc(toks("a.b"), vec![toks("1"), toks("g(2)")]), toks("a.b(1, g(2))"));
    assert_eq!(join_tokens(&vec![]), Vec::<Token>::new());
    assert_eq!(join_tokens(&vec![toks("a b"), vec![], toks("c")]), toks("a b, , c"));
}

#[test]
fn parse_errors_carry_a_message() {
    let kinds = [
        (ParseErrorKind::MalformedAtom, "failed to parse atom"),
        (ParseErrorKind::MissingExpression, "missing expression"),
        (ParseErrorKind::MissingIf, "missing keyword `if`"),
        (ParseErrorKind::MissingProc, "missing keyword `proc`"),
        (ParseErrorKind::MissingDeclare, "missing keyword `declare`"),
        (ParseErrorKind::MissingIn, "missing keyword `in`"),
        (ParseErrorKind::MissingParentheses, "missing parentheses"),
        (ParseErrorKind::MissingClauseBrackets, "missing clause brackets"),
        (ParseErrorKind::MissingIdentifier, "missing identifier"),
        (ParseErrorKind::MissingColon, "missing `:`"),
        (ParseErrorKind::MalformedType, "failed to parse type"),
        (ParseErrorKind::UnexpectedToken, "unexpected token"),
    ];
    for (kind, message) in kinds {
        assert_eq!(failure(kind, &[0]).message(), message);
    }
}

#[test]
fn errors_are_located_from_the_outside_in() {
    let inner = ParseError::at(ParseErrorKind::MalformedAtom, 3);
    assert_eq!(inner, failure(ParseErrorKind::MalformedAtom, &[3]));
    assert_eq!(inner.clone().within(1).within(0), failure(ParseErrorKind::MalformedAtom, &[0, 1, 3]));
    let arity = ArityError::here(BinaryOperator::Rem, 5);
    assert_eq!(arity.clone().within(2).within(0).location, vec![0, 2]);
    assert_eq!(arity.found, 5);
}

#[test]
fn a_parse_failure_prevents_any_output() {
    let tokens = toks("{if a b}");
    let error = failure(ParseErrorKind::MissingExpression, &[0, 3]);
    assert_eq!(print_ast(&tokens), Err(error.clone()));
    assert_eq!(interp(&tokens), Err(InterpError::Parse(error)));
}

#[test]
fn arguments_are_numbered_in_decimal() {
    let text = print_ast(&toks("{f 0 1 2 3 4 5 6 7 8 9 10 11}")).unwrap();
    assert!(text.contains("Arg 9:\n  Number: 9\nArg 10:\n  Number: 10\nArg 11:\n  Number: 11\n"));
    assert_eq!(text.lines().count(), 4 + 2 * 12);
}

#[test]
fn decimal_numerals() {
    for n in [0usize, 7, 9, 10, 11, 99, 100, 101, 4096, 65535, usize::MAX] {
        let mut out = String::from("n=");
        append_decimal(&mut out, n);
        assert_eq!(out, format!("n={n}"));
    }
}

#[test]
fn words_are_compared_whole() {
    assert!(text_is(&"if".to_string(), "if"));
    assert!(!text_is(&"iff".to_string(), "if"));
    assert!(!text_is(&"".to_string(), "if"));
}

#[test]
fn ranges_and_reversal() {
    let tokens = toks("a b c d");
    assert_eq!(clone_range(&tokens, 1, 3), toks("b c"));
    assert_eq!(clone_range(&tokens, 2, 2), Vec::<Token>::new());
    assert_eq!(clone_range(&tokens, 0, 4), tokens);
    assert_eq!(reversed(vec![1, 2, 3]), vec![3, 2, 1]);
    assert_eq!(reversed(Vec::<u8>::new()), Vec::<u8>::new());
}

#[test]
fn trace_of_every_leaf_kind() {
    assert_eq!(generate_print_expr(&number("4"), 0), "Number: 4\n");
    assert_eq!(generate_print_expr(&Expr::BoolLiteral { value: false }, 1), "  Bool: false\n");
    assert_eq!(generate_print_expr(&name("x"), 0), "Identifier: x : \n");
    let typed = Expr::Identifier { name: "x".to_string(), annotation: Some(toks("&'a str")) };
    assert_eq!(generate_print_expr(&typed, 0), "Identifier: x : &'a str\n");
    assert_eq!(
        generate_print_expr(&Expr::StringLiteral { text: "\"s\"".to_string() }, 3),
        "      String: \"s\"\n"
    );
    assert_eq!(generate_print_expr(&operator(BinaryOperator::Ne), 0), "BinOp: !=\n");
}

#[test]
fn deepest_line_is_as_deep_as_the_tree_is_high() {
    let text = print_ast(&toks("{f {g {h 1}}}")).unwrap();
    let deepest = text.lines().map(|l| l.len() - l.trim_start().len()).max().unwrap();
    assert_eq!(deepest, 2 * 3);
    assert!(text.starts_with("Application:\n"));
}

#[test]
fn atom_follows_its_classification() {
    let tokens = toks("7 x true + (a)");
    assert_eq!(classified_atom_at(&tokens, 0, LiteralKind::Int, false), Ok(number("7")));
    assert_eq!(
        classified_atom_at(&tokens, 0, LiteralKind::Str, false),
        Ok(Expr::StringLiteral { text: "7".to_string() })
    );
    let malformed = |at: usize| Err(failure(ParseErrorKind::MalformedAtom, &[at]));
    assert_eq!(classified_atom_at(&tokens, 0, LiteralKind::Other, true), malformed(0));
    assert_eq!(classified_atom_at(&tokens, 1, LiteralKind::Int, true), Ok(name("x")));
    assert_eq!(classified_atom_at(&tokens, 1, LiteralKind::Int, false), malformed(1));
    let yes = Ok(Expr::BoolLiteral { value: true });
    assert_eq!(classified_atom_at(&tokens, 2, LiteralKind::Other, false), yes);
    assert_eq!(classified_atom_at(&tokens, 2, LiteralKind::Other, true), yes);
    assert_eq!(
        classified_atom_at(&tokens, 3, LiteralKind::Str, true),
        Ok(operator(BinaryOperator::Add))
    );
    assert_eq!(classified_atom_at(&tokens, 4, LiteralKind::Int, true), malformed(4));
    assert_eq!(
        classified_atom_at(&tokens, 5, LiteralKind::Int, true),
        Err(failure(ParseErrorKind::MissingExpression, &[5]))
    );
}

#[test]
fn width_of_a_type_is_what_is_not_left() {
    assert_eq!(width_of_type(5, Some(2)), Some(3));
    assert_eq!(width_of_type(5, Some(5)), Some(0));
    assert_eq!(width_of_type(5, Some(0)), Some(5));
    assert_eq!(width_of_type(5, Some(6)), None);
    assert_eq!(width_of_type(5, None), None);
    assert_eq!(width_of_type(0, Some(0)), Some(0));
}

#[test]
fn parameter_follows_its_classification() {
    let tokens = toks("a [b : u8 u16] 3 [4 : u8] [c d]");
    assert_eq!(classified_parameter_at(&tokens, 0, true, None), Ok(name("a")));
    assert_eq!(classified_parameter_at(&tokens, 0, true, Some(1)), Ok(name("a")));
    assert_eq!(
        classified_parameter_at(&tokens, 0, false, None),
        Err(failure(ParseErrorKind::MissingIdentifier, &[0]))
    );
    assert_eq!(
        classified_parameter_at(&tokens, 1, true, Some(2)),
        Ok(Expr::Identifier { name: "b".to_string(), annotation: Some(toks("u8 u16")) })
    );
    assert_eq!(
        classified_parameter_at(&tokens, 1, true, Some(1)),
        Err(failure(ParseErrorKind::UnexpectedToken, &[1, 3]))
    );
    assert_eq!(
        classified_parameter_at(&tokens, 1, true, Some(0)),
        Err(failure(ParseErrorKind::UnexpectedToken, &[1, 2]))
    );
    assert_eq!(
        classified_parameter_at(&tokens, 1, true, Some(3)),
        Err(failure(ParseErrorKind::MalformedType, &[1, 2]))
    );
    assert_eq!(
        classified_parameter_at(&tokens, 1, true, None),
        Err(failure(ParseErrorKind::MalformedType, &[1, 2]))
    );
    assert_eq!(
        classified_parameter_at(&tokens, 1, false, Some(2)),
        Err(failure(ParseErrorKind::MissingIdentifier, &[1, 0]))
    );
    assert_eq!(
        classified_parameter_at(&tokens, 2, true, None),
        Err(failure(ParseErrorKind::MissingIdentifier, &[2]))
    );
    assert_eq!(
        classified_parameter_at(&tokens, 3, true, Some(1)),
        Err(failure(ParseErrorKind::MissingIdentifier, &[3, 0]))
    );
    assert_eq!(
        classified_parameter_at(&tokens, 4, true, Some(0)),
        Err(failure(ParseErrorKind::MissingColon, &[4, 1]))
    );
    assert_eq!(
        classified_parameter_at(&tokens, 5, true, None),
        Err(failure(ParseErrorKind::MissingIdentifier, &[5]))
    );
}

#[test]
fn annotation_follows_the_width_of_its_type() {
    let tokens = toks("x : u8 y");
    assert_eq!(classified_annotation_at(&tokens, 1, Some(1)), Ok((Some(toks("u8")), 3)));
    assert_eq!(classified_annotation_at(&tokens, 1, Some(2)), Ok((Some(toks("u8 y")), 4)));
    assert_eq!(classified_annotation_at(&tokens, 1, Some(0)), Ok((Some(vec![]), 2)));
    let malformed = Err(failure(ParseErrorKind::MalformedType, &[2]));
    assert_eq!(classified_annotation_at(&tokens, 1, Some(3)), malformed);
    assert_eq!(classified_annotation_at(&tokens, 1, None), malformed);
    assert_eq!(classified_annotation_at(&tokens, 0, Some(1)), Ok((None, 0)));
    assert_eq!(classified_annotation_at(&tokens, 4, None), Ok((None, 4)));
    assert_eq!(classified_annotation_at(&tokens, 9, Some(1)), Ok((None, 9)));
}

#[test]
fn groups_without_delimiters_dissolve() {
    let invisible = |tokens: Vec<Token>| Token::Group { delimiter: Delimiter::Invisible, tokens };
    let mut inner = toks("+ 4");
    inner.push(invisible(vec![invisible(toks("7"))]));
    let input = vec![invisible(vec![Token::Group { delimiter: Delimiter::Brace, tokens: inner }])];
    assert_eq!(
        parse(&input),
        Err(failure(ParseErrorKind::MalformedAtom, &[0]))
    );
    assert_eq!(splice_invisible(&input), toks("{+ 4 7}"));
    assert_eq!(interp(&splice_invisible(&input)), Ok(toks("(4 + 7)")));
    assert_eq!(splice_invisible(&toks("f(a [b] {c})")), toks("f(a [b] {c})"));
    assert_eq!(splice_invisible(&vec![invisible(vec![])]), Vec::<Token>::new());
}

#[test]
fn a_type_reaches_as_far_as_it_can_be_read() {
    let sugar = parse(&toks("{declare ([x 4]) : u32 in +}")).unwrap();
    assert_eq!(
        sugar,
        Expr::Application {
            callee: Box::new(Expr::Procedure {
                parameters: vec![name("x")],
                body: Box::new(operator(BinaryOperator::Add)),
                return_annotation: Some(toks("u32")),
            }),
            arguments: vec![number("4")],
        }
    );
    assert_eq!(
        parse(&toks("{{proc (x) : u32 +} 4}")),
        Err(failure(ParseErrorKind::MissingExpression, &[0, 0, 5]))
    );
}
