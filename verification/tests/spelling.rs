use exprlang::lexer::lex;
use exprlang::lower::walk_ast;
use exprlang::operator::BinaryOperator;
use exprlang::parser::parse;
use exprlang::spelling::spell;
use exprlang::syntax::Expr;
use exprlang::token::{tokens_to_string, Token};

fn toks(source: &str) -> Vec<Token> {
    lex(source).expect("the source lexes")
}

#[test]
fn spelling_of_a_parsed_source_is_the_source() {
    let sources = [
        "42",
        "\"text\"",
        "true",
        "x",
        "<<",
        "{if a 1 2}",
        "{f}",
        "{f 1 {g 2} {if a b c}}",
        "{proc () 1}",
        "{proc (a [b : u8]) : Vec<u8> {f a b}}",
        "{{proc (a) {* a a}} 7}",
        "{<= {+ 1 2} {- 3 4}}",
    ];
    for source in sources {
        let tokens = toks(source);
        let expr = parse(&tokens).unwrap();
        assert_eq!(spell(&expr), tokens, "{source}");
        assert_eq!(parse(&spell(&expr)), Ok(expr), "{source}");
    }
}

#[test]
fn declaration_is_spelled_as_application() {
    let expr = parse(&toks("{declare ([x 4] [[y : u8] 7]) : u8 in {+ x y}}")).unwrap();
    let explicit = toks("{{proc (x [y : u8]) : u8 {+ x y}} 4 7}");
    assert_eq!(spell(&expr), explicit);
    assert_eq!(parse(&explicit), Ok(expr.clone()));
    assert_eq!(
        tokens_to_string(&spell(&expr)),
        "{{proc (x [y : u8]) : u8 {+ x y}} 4 7}"
    );
    assert_eq!(walk_ast(&expr), walk_ast(&parse(&explicit).unwrap()));
}

#[test]
fn spelling_of_a_tree_built_by_hand() {
    let expr = Expr::Conditional {
        guard: Box::new(Expr::Application {
            callee: Box::new(Expr::OperatorLiteral { operator: BinaryOperator::Ne }),
            arguments: vec![
                Expr::Identifier { name: "a".to_string(), annotation: None },
                Expr::NumberLiteral { text: "0".to_string() },
            ],
        }),
        then_branch: Box::new(Expr::StringLiteral { text: "\"yes\"".to_string() }),
        else_branch: Box::new(Expr::BoolLiteral { value: false }),
    };
    assert_eq!(spell(&expr), toks("{if {!= a 0} \"yes\" false}"));
    assert_eq!(parse(&spell(&expr)), Ok(expr));
}

#[test]
fn a_parameter_that_is_no_identifier_is_spelled_as_empty_brackets() {
    let expr = Expr::Procedure {
        parameters: vec![Expr::NumberLiteral { text: "1".to_string() }],
        body: Box::new(Expr::BoolLiteral { value: true }),
        return_annotation: None,
    };
    assert_eq!(spell(&expr), toks("{proc ([]) true}"));
}

#[test]
fn constructor_of_every_kind_of_leaf() {
    let cases = [
        ("4", "Expr::NumberLiteral { text: 4 }"),
        ("true", "Expr::BoolLiteral { value: true }"),
        ("\"s\"", "Expr::StringLiteral { text: \"s\" }"),
        ("x", "Expr::Identifier { name: x, annotation: , }"),
        (">=", "Expr::OperatorLiteral { operator: >= }"),
    ];
    for (source, expected) in cases {
        let expr = parse(&toks(source)).unwrap();
        assert_eq!(expr.to_tokens(), toks(expected), "{source}");
    }
}

#[test]
fn constructor_of_composites() {
    let number = |n: &str| format!("Expr::NumberLiteral {{ text: {n} }}");
    let name = |n: &str| format!("Expr::Identifier {{ name: {n}, annotation: , }}");
    let sum = parse(&toks("{+ 4 7}")).unwrap();
    let expected = format!(
        "Expr::Application {{ callee: Expr::OperatorLiteral {{ operator: + }}, arguments: {}, {}, }}",
        number("4"),
        number("7")
    );
    assert_eq!(sum.to_tokens(), toks(&expected));
    let choice = parse(&toks("{if a 1 2}")).unwrap();
    let expected = format!(
        "Expr::Conditional {{ guard: {}, then_branch: {}, else_branch: {}, }}",
        name("a"),
        number("1"),
        number("2")
    );
    assert_eq!(choice.to_tokens(), toks(&expected));
    let lambda = parse(&toks("{proc ([a : u8] b) : u8 a}")).unwrap();
    let expected = format!(
        "Expr::Procedure {{ parameters: Expr::Identifier {{ name: a, annotation: u8, }}, {}, \
         body: {}, return_annotation: u8, }}",
        name("b"),
        name("a")
    );
    assert_eq!(lambda.to_tokens(), toks(&expected));
    let call = parse(&toks("{f}")).unwrap();
    let expected = format!("Expr::Application {{ callee: {}, arguments: , }}", name("f"));
    assert_eq!(call.to_tokens(), toks(&expected));
}
