//! Recursive-descent parsing: a token sequence to the abstract syntax tree.
//!
//! The grammar, top-down:
//!
//! ```text
//! Program    := Function
//! Function   := "int" Identifier "(" ")" "{" Return "}"
//! Return     := "return" Expression ";"
//! Expression := IntLiteral | UnaryOperator Expression
//! ```
//!
//! Tokens are consumed through a single forward cursor, with no lookahead
//! beyond the next token and no backtracking.  The first token that does not
//! match the grammar ends the parse with a `ParseError` carrying that token;
//! a token required where the stream has ended gives a `ParseError` carrying
//! `None`.  Tokens after a complete function are not inspected.

use crate::lex::{spec_tokenize, Operator, Token, TokenView, Tokenize};
use vstd::prelude::*;

verus! {

/// An expression: an integer constant, or a unary operator applied to an
/// exclusively owned operand.
#[derive(Debug, PartialEq)]
pub enum Expression {
    Const(i32),
    UnOp(Operator, Box<Expression>),
}

/// The mathematical value of an expression, with unbounded integers.
pub enum ExpressionView {
    Const(int),
    UnOp(Operator, Box<ExpressionView>),
}

impl View for Expression {
    type V = ExpressionView;

    open spec fn view(&self) -> ExpressionView
        decreases self,
    {
        match self {
            Expression::Const(value) => ExpressionView::Const(*value as int),
            Expression::UnOp(op, operand) => ExpressionView::UnOp(
                *op,
                Box::new((**operand).view()),
            ),
        }
    }
}

/// A function body: exactly one returned expression.
#[derive(Debug, PartialEq)]
pub struct Return(pub Expression);

/// The mathematical value of a function body.
pub struct ReturnView(pub ExpressionView);

impl View for Return {
    type V = ReturnView;

    open spec fn view(&self) -> ReturnView {
        ReturnView(self.0@)
    }
}

/// A function: its name and its body.
#[derive(Debug, PartialEq)]
pub struct Fun(pub String, pub Return);

/// The mathematical value of a function, its name as a sequence of
/// characters.
pub struct FunView(pub Seq<char>, pub ReturnView);

impl View for Fun {
    type V = FunView;

    open spec fn view(&self) -> FunView {
        FunView(self.0@, self.1@)
    }
}

/// A program: exactly one function.
#[derive(Debug, PartialEq)]
pub struct Prog(pub Fun);

/// The mathematical value of a program.
pub struct ProgView(pub FunView);

impl View for Prog {
    type V = ProgView;

    open spec fn view(&self) -> ProgView {
        ProgView(self.0@)
    }
}

/// A failed parse: the token that did not match the grammar, or `None` where
/// a token was required but the stream was exhausted.
#[derive(Debug)]
pub struct ParseError(pub Option<Token>);

impl View for ParseError {
    type V = Option<TokenView>;

    open spec fn view(&self) -> Option<TokenView> {
        match &self.0 {
            Some(t) => Some(t@),
            None => None,
        }
    }
}

/// One step of the cursor: the position after the expected token, or the
/// error the mismatch gives.
pub open spec fn spec_expect(ts: Seq<TokenView>, pos: nat, expected: TokenView) -> Result<
    nat,
    Option<TokenView>,
> {
    if pos >= ts.len() {
        Err(None)
    } else if ts[pos as int] == expected {
        Ok((pos + 1) as nat)
    } else {
        Err(Some(ts[pos as int]))
    }
}

/// The expression parsed from position `pos` on, with the position after it.
pub open spec fn spec_parse_expression(ts: Seq<TokenView>, pos: nat) -> Result<
    (ExpressionView, nat),
    Option<TokenView>,
>
    decreases ts.len() - pos,
{
    if pos >= ts.len() {
        Err(None)
    } else {
        match ts[pos as int] {
            TokenView::IntLiteral(value) => Ok((ExpressionView::Const(value), (pos + 1) as nat)),
            TokenView::Op(op) => match spec_parse_expression(ts, (pos + 1) as nat) {
                Ok((operand, next)) => Ok((ExpressionView::UnOp(op, Box::new(operand)), next)),
                Err(e) => Err(e),
            },
            _ => Err(Some(ts[pos as int])),
        }
    }
}

/// The function body parsed from position `pos` on: the `return` keyword, an
/// expression, a semicolon.
pub open spec fn spec_parse_return(ts: Seq<TokenView>, pos: nat) -> Result<
    (ReturnView, nat),
    Option<TokenView>,
> {
    match spec_expect(ts, pos, TokenView::Return) {
        Err(e) => Err(e),
        Ok(p1) => match spec_parse_expression(ts, p1) {
            Err(e) => Err(e),
            Ok((expression, p2)) => match spec_expect(ts, p2, TokenView::Semicolon) {
                Err(e) => Err(e),
                Ok(p3) => Ok((ReturnView(expression), p3)),
            },
        },
    }
}

/// The function parsed from position `pos` on, in the order the cursor moves:
/// the `int` keyword, a name, `(`, `)`, `{`, then — only once the name has
/// proved to be an identifier — the body, and the closing `}`.  A name that
/// is not an identifier is reported only after the token following `{` has
/// been checked to be `}`, since the cursor steps there first.
pub open spec fn spec_parse_fun(ts: Seq<TokenView>, pos: nat) -> Result<
    (FunView, nat),
    Option<TokenView>,
> {
    match spec_expect(ts, pos, TokenView::Int) {
        Err(e) => Err(e),
        Ok(p1) => if p1 >= ts.len() {
            Err(None)
        } else {
            let id = ts[p1 as int];
            match spec_expect(ts, (p1 + 1) as nat, TokenView::OpenParenthesis) {
                Err(e) => Err(e),
                Ok(p2) => match spec_expect(ts, p2, TokenView::CloseParenthesis) {
                    Err(e) => Err(e),
                    Ok(p3) => match spec_expect(ts, p3, TokenView::OpenBrace) {
                        Err(e) => Err(e),
                        Ok(p4) => match id {
                            TokenView::Identifier(name) => match spec_parse_return(ts, p4) {
                                Err(e) => Err(e),
                                Ok((body, p5)) => match spec_expect(
                                    ts,
                                    p5,
                                    TokenView::CloseBrace,
                                ) {
                                    Err(e) => Err(e),
                                    Ok(p6) => Ok((FunView(name, body), p6)),
                                },
                            },
                            _ => match spec_expect(ts, p4, TokenView::CloseBrace) {
                                Err(e) => Err(e),
                                Ok(_) => Err(Some(id)),
                            },
                        },
                    },
                },
            }
        },
    }
}

/// The program a token sequence parses to: its one function, parsed from the
/// start; whatever follows it is not inspected.
pub open spec fn spec_parse_prog(ts: Seq<TokenView>) -> Result<ProgView, Option<TokenView>> {
    match spec_parse_fun(ts, 0) {
        Ok((f, _)) => Ok(ProgView(f)),
        Err(e) => Err(e),
    }
}

/// Parsing a minimal function: a token sequence that begins
/// `int <name> ( ) { return <value> ; }` parses to exactly the program with
/// that name whose body returns that constant, whatever tokens follow.
pub proof fn lemma_parse_simple_function(ts: Seq<TokenView>, name: Seq<char>, value: int)
    requires
        ts.len() >= 9,
        ts[0] == TokenView::Int,
        ts[1] == TokenView::Identifier(name),
        ts[2] == TokenView::OpenParenthesis,
        ts[3] == TokenView::CloseParenthesis,
        ts[4] == TokenView::OpenBrace,
        ts[5] == TokenView::Return,
        ts[6] == TokenView::IntLiteral(value),
        ts[7] == TokenView::Semicolon,
        ts[8] == TokenView::CloseBrace,
    ensures
        spec_parse_prog(ts) == Ok::<ProgView, Option<TokenView>>(
            ProgView(FunView(name, ReturnView(ExpressionView::Const(value)))),
        ),
{
    assert(spec_expect(ts, 0, TokenView::Int) == Ok::<nat, Option<TokenView>>(1nat));
    assert(spec_expect(ts, 2, TokenView::OpenParenthesis) == Ok::<nat, Option<TokenView>>(3nat));
    assert(spec_expect(ts, 3, TokenView::CloseParenthesis) == Ok::<nat, Option<TokenView>>(4nat));
    assert(spec_expect(ts, 4, TokenView::OpenBrace) == Ok::<nat, Option<TokenView>>(5nat));
    assert(spec_expect(ts, 5, TokenView::Return) == Ok::<nat, Option<TokenView>>(6nat));
    assert(spec_parse_expression(ts, 6) == Ok::<(ExpressionView, nat), Option<TokenView>>(
        (ExpressionView::Const(value), 7nat),
    ));
    assert(spec_expect(ts, 7, TokenView::Semicolon) == Ok::<nat, Option<TokenView>>(8nat));
    assert(spec_parse_return(ts, 5) == Ok::<(ReturnView, nat), Option<TokenView>>(
        (ReturnView(ExpressionView::Const(value)), 8nat),
    ));
    assert(spec_expect(ts, 8, TokenView::CloseBrace) == Ok::<nat, Option<TokenView>>(9nat));
}

/// A copy of a token with the same view.
fn clone_token(t: &Token) -> (r: Token)
    ensures
        r@ == t@,
{
    match t {
        Token::OpenBrace => Token::OpenBrace,
        Token::CloseBrace => Token::CloseBrace,
        Token::OpenParenthesis => Token::OpenParenthesis,
        Token::CloseParenthesis => Token::CloseParenthesis,
        Token::Semicolon => Token::Semicolon,
        Token::Int => Token::Int,
        Token::Return => Token::Return,
        Token::Op(op) => Token::Op(*op),
        Token::Identifier(name) => Token::Identifier(name.clone()),
        Token::IntLiteral(value) => Token::IntLiteral(*value),
    }
}

/// Pulls the next token and checks it against the expected one, as
/// `spec_expect` says.  A mismatched token is still consumed.
fn expect_to_be(tokens: &Vec<Token>, pos: &mut usize, expected: &Token) -> (r: Result<
    (),
    ParseError,
>)
    ensures
        r is Ok ==> spec_expect(tokens.deep_view(), *old(pos) as nat, expected@) == Ok::<
            nat,
            Option<TokenView>,
        >(*final(pos) as nat),
        r matches Err(e) ==> spec_expect(tokens.deep_view(), *old(pos) as nat, expected@) == Err::<
            nat,
            Option<TokenView>,
        >(e@),
{
    if *pos >= tokens.len() {
        return Err(ParseError(None));
    }
    let t = &tokens[*pos];
    *pos += 1;
    if *t == *expected {
        Ok(())
    } else {
        Err(ParseError(Some(clone_token(t))))
    }
}

impl Expression {
    /// Parses an expression at the cursor: an integer literal, or a unary
    /// operator followed by its operand, giving a right-nested tree for
    /// chained operators.
    pub fn new(tokens: &Vec<Token>, pos: &mut usize) -> (r: Result<Expression, ParseError>)
        ensures
            r matches Ok(e) ==> spec_parse_expression(tokens.deep_view(), *old(pos) as nat) == Ok::<
                (ExpressionView, nat),
                Option<TokenView>,
            >((e@, *final(pos) as nat)),
            r matches Err(e) ==> spec_parse_expression(tokens.deep_view(), *old(pos) as nat)
                == Err::<(ExpressionView, nat), Option<TokenView>>(e@),
        decreases tokens.len() - *pos,
    {
        if *pos >= tokens.len() {
            return Err(ParseError(None));
        }
        let t = &tokens[*pos];
        *pos += 1;
        match t {
            Token::IntLiteral(value) => Ok(Expression::Const(*value)),
            Token::Op(op) => match Expression::new(tokens, pos) {
                Ok(operand) => Ok(Expression::UnOp(*op, Box::new(operand))),
                Err(e) => Err(e),
            },
            _ => Err(ParseError(Some(clone_token(t)))),
        }
    }
}

impl Return {
    /// Parses a function body at the cursor: `return`, an expression, `;`.
    pub fn new(tokens: &Vec<Token>, pos: &mut usize) -> (r: Result<Return, ParseError>)
        ensures
            r matches Ok(ret) ==> spec_parse_return(tokens.deep_view(), *old(pos) as nat) == Ok::<
                (ReturnView, nat),
                Option<TokenView>,
            >((ret@, *final(pos) as nat)),
            r matches Err(e) ==> spec_parse_return(tokens.deep_view(), *old(pos) as nat) == Err::<
                (ReturnView, nat),
                Option<TokenView>,
            >(e@),
    {
        match expect_to_be(tokens, pos, &Token::Return) {
            Err(e) => Err(e),
            Ok(()) => match Expression::new(tokens, pos) {
                Err(e) => Err(e),
                Ok(expression) => match expect_to_be(tokens, pos, &Token::Semicolon) {
                    Err(e) => Err(e),
                    Ok(()) => Ok(Return(expression)),
                },
            },
        }
    }
}

impl Fun {
    /// Parses a function at the cursor, stepping exactly as the grammar
    /// dictates: `int`, a name, `(`, `)`, `{`, the body, `}`.
    pub fn new(tokens: &Vec<Token>, pos: &mut usize) -> (r: Result<Fun, ParseError>)
        ensures
            r matches Ok(f) ==> spec_parse_fun(tokens.deep_view(), *old(pos) as nat) == Ok::<
                (FunView, nat),
                Option<TokenView>,
            >((f@, *final(pos) as nat)),
            r matches Err(e) ==> spec_parse_fun(tokens.deep_view(), *old(pos) as nat) == Err::<
                (FunView, nat),
                Option<TokenView>,
            >(e@),
    {
        match expect_to_be(tokens, pos, &Token::Int) {
            Err(e) => Err(e),
            Ok(()) => {
                if *pos >= tokens.len() {
                    return Err(ParseError(None));
                }
                let id_index = *pos;
                *pos += 1;
                match expect_to_be(tokens, pos, &Token::OpenParenthesis) {
                    Err(e) => Err(e),
                    Ok(()) => match expect_to_be(tokens, pos, &Token::CloseParenthesis) {
                        Err(e) => Err(e),
                        Ok(()) => match expect_to_be(tokens, pos, &Token::OpenBrace) {
                            Err(e) => Err(e),
                            Ok(()) => {
                                let id = &tokens[id_index];
                                match id {
                                    Token::Identifier(name) => match Return::new(tokens, pos) {
                                        Err(e) => Err(e),
                                        Ok(body) => match expect_to_be(
                                            tokens,
                                            pos,
                                            &Token::CloseBrace,
                                        ) {
                                            Err(e) => Err(e),
                                            Ok(()) => Ok(Fun(name.clone(), body)),
                                        },
                                    },
                                    _ => match expect_to_be(tokens, pos, &Token::CloseBrace) {
                                        Err(e) => Err(e),
                                        Ok(()) => Err(ParseError(Some(clone_token(id)))),
                                    },
                                }
                            },
                        },
                    },
                }
            },
        }
    }
}

impl Prog {
    /// Parses a whole source text: the text is tokenized, then one function
    /// is parsed from the start of the token sequence.
    pub fn from_str(source: &str) -> (r: Result<Prog, ParseError>)
        ensures
            r matches Ok(p) ==> spec_parse_prog(spec_tokenize(source@)) == Ok::<
                ProgView,
                Option<TokenView>,
            >(p@),
            r matches Err(e) ==> spec_parse_prog(spec_tokenize(source@)) == Err::<
                ProgView,
                Option<TokenView>,
            >(e@),
    {
        let tokens = source.tokenize();
        let mut pos: usize = 0;
        match Fun::new(&tokens, &mut pos) {
            Ok(f) => Ok(Prog(f)),
            Err(e) => Err(e),
        }
    }
}

} // verus!
