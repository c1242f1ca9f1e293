use exprlang::error::{ArityError, InterpError, ParseError, ParseErrorKind};
use exprlang::lexer::lex;
use exprlang::lower::{interp, walk_ast};
use exprlang::operator::BinaryOperator;
use exprlang::parser::parse;
use exprlang::printer::{generate_print_expr, print_ast};
use exprlang::syntax::Expr;
use exprlang::token::{tokens_to_string, Delimiter, Token};

fn tokens(source: &str) -> Vec<Token> {
    lex(source).expect("the source lexes")
}

fn code(source: &str) -> String {
    tokens_to_string(&interp(&tokens(source)).expect("the source lowers"))
}

#[test]
fn lex_splits_a_group_into_trees() {
    let expected = vec![Token::Group {
        delimiter: Delimiter::Brace,
        tokens: vec![
            Token::Punct { ch: '+', joint: false },
            Token::Literal { text: "4".to_string() },
            Token::Literal { text: "7".to_string() },
        ],
    }];
    assert_eq!(tokens("{+ 4 7}"), expected);
}

#[test]
fn integer_literal_prints_as_one_line() {
    assert_eq!(print_ast(&tokens("42")), Ok("Number: 42\n".to_string()));
    assert_eq!(print_ast(&tokens("0x1F")), Ok("Number: 0x1F\n".to_string()));
    assert_eq!(print_ast(&tokens("7u8")), Ok("Number: 7u8\n".to_string()));
}

#[test]
fn boolean_literal_prints_as_one_line() {
    assert_eq!(print_ast(&tokens("true")), Ok("Bool: true\n".to_string()));
    assert_eq!(print_ast(&tokens("false")), Ok("Bool: false\n".to_string()));
}

#[test]
fn string_literal_prints_as_one_line() {
    assert_eq!(print_ast(&tokens("\"hello\"")), Ok("String: \"hello\"\n".to_string()));
}

#[test]
fn declare_lowers_like_explicit_application() {
    let sugar = tokens("{declare ([x 4] [y 7]) in {+ x y}}");
    let explicit = tokens("{{proc (x y) {+ x y}} 4 7}");
    assert_eq!(parse(&sugar), parse(&explicit));
    assert_eq!(interp(&sugar), interp(&explicit));
    assert_eq!(interp(&sugar), Ok(tokens("(|x, y| (x + y))(4, 7)")));
}

#[test]
fn clause_order_is_preserved() {
    let expr = parse(&tokens("{declare ([a 1] [b 2] [c 3]) in a}")).unwrap();
    let name = |text: &str| Expr::Identifier { name: text.to_string(), annotation: None };
    let number = |text: &str| Expr::NumberLiteral { text: text.to_string() };
    let expected = Expr::Application {
        callee: Box::new(Expr::Procedure {
            parameters: vec![name("a"), name("b"), name("c")],
            body: Box::new(name("a")),
            return_annotation: None,
        }),
        arguments: vec![number("1"), number("2"), number("3")],
    };
    assert_eq!(expr, expected);
    assert_eq!(walk_ast(&expr), Ok(tokens("(|a, b, c| a)(1, 2, 3)")));
}

#[test]
fn addition_lowers_to_infix() {
    assert_eq!(interp(&tokens("{+ 4 7}")), Ok(tokens("(4 + 7)")));
    assert_eq!(code("{+ 4 7}"), "(4 + 7)");
    assert_eq!((4 + 7), 11);
}

#[test]
fn conditional_lowers_to_if_else() {
    assert_eq!(interp(&tokens("{if true 5 7}")), Ok(tokens("if true { 5 } else { 7 }")));
    assert_eq!(interp(&tokens("{if false 5 7}")), Ok(tokens("if false { 5 } else { 7 }")));
    assert_eq!(if true { 5 } else { 7 }, 5);
    assert_eq!(if false { 5 } else { 7 }, 7);
}

#[test]
fn three_operands_are_an_arity_error() {
    let expected = ArityError { operator: BinaryOperator::Add, found: 3, location: vec![] };
    assert_eq!(interp(&tokens("{+ 1 2 3}")), Err(InterpError::Arity(expected)));
}

#[test]
fn procedure_is_invoked_at_once() {
    assert_eq!(interp(&tokens("{{proc (a) {* a a}} 7}")), Ok(tokens("(|a| (a * a))(7)")));
    assert_eq!((|a| (a * a))(7), 49);
}

#[test]
fn nesting_adds_one_level_per_level() {
    let text = print_ast(&tokens("{if {if a b c} {f {g x}} 3}")).unwrap();
    let expected = "\
If Expression:
Guard:
  If Expression:
  Guard:
    Identifier: a : 
  Then:
    Identifier: b : 
  Other:
    Identifier: c : 
Then:
  Application:
  Procedure:
    Identifier: f : 
  Arguments:
  Arg 0:
    Application:
    Procedure:
      Identifier: g : 
    Arguments:
    Arg 0:
      Identifier: x : 
Other:
  Number: 3
";
    assert_eq!(text, expected);
}

#[test]
fn product_trace() {
    let expected = "\
Application:
Procedure:
  BinOp: *
Arguments:
Arg 0:
  Number: 4
Arg 1:
  Number: 7
";
    assert_eq!(print_ast(&tokens("{* 4 7}")), Ok(expected.to_string()));
}

#[test]
fn conditional_trace_with_strings() {
    let expected = "\
If Expression:
Guard:
  Bool: true
Then:
  String: \"5\"
Other:
  String: \"7\"
";
    assert_eq!(print_ast(&tokens("{if true \"5\" \"7\"}")), Ok(expected.to_string()));
}

#[test]
fn typed_declare_lowers_to_typed_closure() {
    let source = "{declare ([[a : u32] 4] [[b : u32] 7]) : u32 in {+ a b}}";
    assert_eq!(
        interp(&tokens(source)),
        Ok(tokens("(|a: u32, b: u32| -> u32 { (a + b) })(4, 7)"))
    );
}

#[test]
fn typed_procedure_lowers_to_typed_closure() {
    assert_eq!(
        interp(&tokens("{{proc ([a : u32]) : u32 {+ a a}} 7}")),
        Ok(tokens("(|a: u32| -> u32 { (a + a) })(7)"))
    );
}

#[test]
fn call_of_a_named_function() {
    assert_eq!(interp(&tokens("{sq 7}")), Ok(tokens("sq(7)")));
    assert_eq!(interp(&tokens("{strlen \"Hello!\"}")), Ok(tokens("strlen(\"Hello!\")")));
}

#[test]
fn typed_procedure_trace() {
    let expected = "\
Procedure:
Parameters:
Param 0:
  Identifier: a : Vec < u32 >
Param 1:
  Identifier: b : 
Return Type Annotation: & str
Body:
  Identifier: a : 
";
    assert_eq!(
        print_ast(&tokens("{proc ([a : Vec<u32>] b) : &str a}")),
        Ok(expected.to_string())
    );
}

#[test]
fn indent_shifts_every_line() {
    let expr = parse(&tokens("{f 1}")).unwrap();
    let expected = [
        "    Application:\n",
        "    Procedure:\n",
        "      Identifier: f : \n",
        "    Arguments:\n",
        "    Arg 0:\n",
        "      Number: 1\n",
    ]
    .concat();
    assert_eq!(generate_print_expr(&expr, 2), expected);
}

#[test]
fn malformed_atom_is_reported_where_it_stands() {
    let error = ParseError { kind: ParseErrorKind::MalformedAtom, location: vec![0, 2] };
    assert_eq!(parse(&tokens("{f a : b}")), Err(error.clone()));
    assert_eq!(error.message(), "failed to parse atom");
    assert_eq!(
        parse(&tokens("1.5")),
        Err(ParseError { kind: ParseErrorKind::MalformedAtom, location: vec![0] })
    );
}

#[test]
fn missing_expression_is_reported_at_the_end() {
    assert_eq!(
        parse(&tokens("{if a b}")),
        Err(ParseError { kind: ParseErrorKind::MissingExpression, location: vec![0, 3] })
    );
    assert_eq!(
        parse(&tokens("")),
        Err(ParseError { kind: ParseErrorKind::MissingExpression, location: vec![0] })
    );
    assert_eq!(
        parse(&tokens("{}")),
        Err(ParseError { kind: ParseErrorKind::MissingExpression, location: vec![0, 0] })
    );
}

#[test]
fn missing_in_is_reported() {
    assert_eq!(
        parse(&tokens("{declare ([x 4]) x}")),
        Err(ParseError { kind: ParseErrorKind::MissingIn, location: vec![0, 2] })
    );
}

#[test]
fn missing_parentheses_are_reported() {
    assert_eq!(
        parse(&tokens("{proc a a}")),
        Err(ParseError { kind: ParseErrorKind::MissingParentheses, location: vec![0, 1] })
    );
    assert_eq!(
        parse(&tokens("{declare [x 4] in x}")),
        Err(ParseError { kind: ParseErrorKind::MissingParentheses, location: vec![0, 1] })
    );
}

#[test]
fn missing_clause_brackets_are_reported() {
    assert_eq!(
        parse(&tokens("{declare ([x 4] y) in x}")),
        Err(ParseError { kind: ParseErrorKind::MissingClauseBrackets, location: vec![0, 1, 1] })
    );
}

#[test]
fn malformed_parameters_are_reported() {
    assert_eq!(
        parse(&tokens("{proc (a 5) a}")),
        Err(ParseError { kind: ParseErrorKind::MissingIdentifier, location: vec![0, 1, 1] })
    );
    assert_eq!(
        parse(&tokens("{proc ([a u32]) a}")),
        Err(ParseError { kind: ParseErrorKind::MissingColon, location: vec![0, 1, 0, 1] })
    );
    assert_eq!(
        parse(&tokens("{proc ([a : ]) a}")),
        Err(ParseError { kind: ParseErrorKind::MalformedType, location: vec![0, 1, 0, 2] })
    );
    assert_eq!(
        parse(&tokens("{proc ([a : u32 5]) a}")),
        Err(ParseError { kind: ParseErrorKind::UnexpectedToken, location: vec![0, 1, 0, 3] })
    );
    assert_eq!(
        parse(&tokens("{proc (a) : 5 a}")),
        Err(ParseError { kind: ParseErrorKind::MalformedType, location: vec![0, 3] })
    );
}

#[test]
fn leftover_tokens_are_reported() {
    assert_eq!(
        parse(&tokens("{if a b c d}")),
        Err(ParseError { kind: ParseErrorKind::UnexpectedToken, location: vec![0, 4] })
    );
    assert_eq!(
        parse(&tokens("a b")),
        Err(ParseError { kind: ParseErrorKind::UnexpectedToken, location: vec![1] })
    );
    assert_eq!(
        parse(&tokens("{declare ([x 4 5]) in x}")),
        Err(ParseError { kind: ParseErrorKind::UnexpectedToken, location: vec![0, 1, 0, 2] })
    );
}

#[test]
fn keywords_are_no_identifiers() {
    assert_eq!(
        parse(&tokens("{f fn}")),
        Err(ParseError { kind: ParseErrorKind::MalformedAtom, location: vec![0, 1] })
    );
    assert_eq!(
        parse(&tokens("{proc (self) 1}")),
        Err(ParseError { kind: ParseErrorKind::MissingIdentifier, location: vec![0, 1, 0] })
    );
}
