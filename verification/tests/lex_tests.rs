use minicc::lex::{Operator, Token, Tokenize};

#[test]
fn lex_it_lexes_sample_input() {
    let input = "\
int main() {
    return 2;
}";
    let output = vec![
        Token::Int,
        Token::Identifier("main".to_owned()),
        Token::OpenParenthesis,
        Token::CloseParenthesis,
        Token::OpenBrace,
        Token::Return,
        Token::IntLiteral(2),
        Token::Semicolon,
        Token::CloseBrace,
    ];
    assert_eq!(input.tokenize(), output);

    let input = "int main() {\n  return 2;\n}\n";
    assert_eq!(input.tokenize(), output);

    let input = "-~!";
    let output = vec![
        Token::Op(Operator::Negation),
        Token::Op(Operator::BitwiseCompliment),
        Token::Op(Operator::LogicalNegation),
    ];
    assert_eq!(input.tokenize(), output);
}

#[test]
fn main_it_lexes_sample_input() {
    let input = "\
int main() {
    return 2;
}";
    let output = vec![
        Token::Int,
        Token::Identifier("main".to_owned()),
        Token::OpenParenthesis,
        Token::CloseParenthesis,
        Token::OpenBrace,
        Token::Return,
        Token::IntLiteral(2),
        Token::Semicolon,
        Token::CloseBrace,
    ];
    assert_eq!(input.tokenize(), output);
}

#[test]
fn tokenize_is_deterministic() {
    let input = "int main() {\n    return -~!2;\n}";
    assert_eq!(input.tokenize(), input.tokenize());
}

#[test]
fn classifies_numerals() {
    assert_eq!(
        Token::from_string("2".to_owned()),
        Some(Token::IntLiteral(2))
    );
    assert_eq!(
        Token::from_string("-12".to_owned()),
        Some(Token::IntLiteral(-12))
    );
    assert_eq!(
        Token::from_string("+5".to_owned()),
        Some(Token::IntLiteral(5))
    );
    assert_eq!(
        Token::from_string("2147483647".to_owned()),
        Some(Token::IntLiteral(2147483647))
    );
    assert_eq!(
        Token::from_string("-2147483648".to_owned()),
        Some(Token::IntLiteral(-2147483648))
    );
}

#[test]
fn out_of_range_numeral_is_an_identifier() {
    assert_eq!(
        Token::from_string("2147483648".to_owned()),
        Some(Token::Identifier("2147483648".to_owned()))
    );
}

#[test]
fn blanks_are_dropped() {
    assert_eq!(Token::from_string("".to_owned()), None);
    assert_eq!(Token::from_string(" ".to_owned()), None);
    assert_eq!(Token::from_string("\n".to_owned()), None);
}

#[test]
fn unmapped_words_become_identifiers() {
    let tokens = "a$b".tokenize();
    assert_eq!(tokens, vec![Token::Identifier("a$b".to_owned())]);
}
