use minicc::lex::{Operator, Token};
use minicc::parse::{Expression, Fun, Prog, Return};

#[test]
fn parse_it_lexes_sample_input() {
    let input = "\
int main() {
    return 2;
}";
    let output = Prog(Fun("main".to_string(), Return(Expression::Const(2))));
    assert_eq!(Prog::from_str(input).unwrap(), output);
}

#[test]
fn chained_operators_nest_right() {
    let input = "int main() {\n    return -~!2;\n}";
    let output = Prog(Fun(
        "main".to_string(),
        Return(Expression::UnOp(
            Operator::Negation,
            Box::new(Expression::UnOp(
                Operator::BitwiseCompliment,
                Box::new(Expression::UnOp(
                    Operator::LogicalNegation,
                    Box::new(Expression::Const(2)),
                )),
            )),
        )),
    ));
    assert_eq!(Prog::from_str(input).unwrap(), output);
}

#[test]
fn missing_semicolon_is_an_error() {
    let error = Prog::from_str("int main() { return 2 }").unwrap_err();
    assert!(matches!(error.0, Some(Token::CloseBrace)));
}

#[test]
fn missing_closing_brace_is_an_error() {
    let error = Prog::from_str("int main() { return 2;").unwrap_err();
    assert!(matches!(error.0, None));
}

#[test]
fn wrong_keyword_is_an_error() {
    let error = Prog::from_str("integer main() { return 2; }").unwrap_err();
    match error.0 {
        Some(Token::Identifier(word)) => assert_eq!(word, "integer"),
        other => panic!("unexpected offending token: {:?}", other),
    }
}

#[test]
fn missing_return_keyword_is_an_error() {
    let error = Prog::from_str("int main() { 2; }").unwrap_err();
    assert!(matches!(error.0, Some(Token::IntLiteral(2))));
}

#[test]
fn trailing_tokens_are_not_inspected() {
    let input = "int main() { return 2; } nonsense";
    let output = Prog(Fun("main".to_string(), Return(Expression::Const(2))));
    assert_eq!(Prog::from_str(input).unwrap(), output);
}
