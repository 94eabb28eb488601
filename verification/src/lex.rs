//! Lexical analysis: source text to a sequence of tokens.
//!
//! The scanner accumulates maximal runs of non-delimiter characters into
//! candidate words; each delimiter character is a candidate of its own.
//! Every candidate is classified independently: blanks are dropped,
//! punctuation, keywords and operator characters map to their tokens,
//! numerals become `IntLiteral`, and everything else an `Identifier`.
//! Lexing is total: no input text is rejected.

use vstd::prelude::*;

verus! {

/// A unary operator of the source language.
#[derive(Clone, Copy, Debug, PartialEq, Eq, Structural)]
pub enum Operator {
    Negation,
    LogicalNegation,
    BitwiseCompliment,
}

/// One lexical unit of the source language.
#[derive(Debug)]
pub enum Token {
    OpenBrace,
    CloseBrace,
    OpenParenthesis,
    CloseParenthesis,
    Semicolon,
    Int,
    Return,
    Op(Operator),
    Identifier(String),
    IntLiteral(i32),
}

/// The mathematical value of a token: identifier text as a sequence of
/// characters, a literal's value as an unbounded integer.
pub enum TokenView {
    OpenBrace,
    CloseBrace,
    OpenParenthesis,
    CloseParenthesis,
    Semicolon,
    Int,
    Return,
    Op(Operator),
    Identifier(Seq<char>),
    IntLiteral(int),
}

impl View for Token {
    type V = TokenView;

    open spec fn view(&self) -> TokenView {
        match self {
            Token::OpenBrace => TokenView::OpenBrace,
            Token::CloseBrace => TokenView::CloseBrace,
            Token::OpenParenthesis => TokenView::OpenParenthesis,
            Token::CloseParenthesis => TokenView::CloseParenthesis,
            Token::Semicolon => TokenView::Semicolon,
            Token::Int => TokenView::Int,
            Token::Return => TokenView::Return,
            Token::Op(op) => TokenView::Op(*op),
            Token::Identifier(name) => TokenView::Identifier(name@),
            Token::IntLiteral(value) => TokenView::IntLiteral(*value as int),
        }
    }
}

impl DeepView for Token {
    type V = TokenView;

    open spec fn deep_view(&self) -> TokenView {
        self.view()
    }
}

impl PartialEq for Token {
    fn eq(&self, other: &Token) -> (r: bool) {
        match (self, other) {
            (Token::OpenBrace, Token::OpenBrace) => true,
            (Token::CloseBrace, Token::CloseBrace) => true,
            (Token::OpenParenthesis, Token::OpenParenthesis) => true,
            (Token::CloseParenthesis, Token::CloseParenthesis) => true,
            (Token::Semicolon, Token::Semicolon) => true,
            (Token::Int, Token::Int) => true,
            (Token::Return, Token::Return) => true,
            (Token::Op(a), Token::Op(b)) => *a == *b,
            (Token::Identifier(a), Token::Identifier(b)) => *a == *b,
            (Token::IntLiteral(a), Token::IntLiteral(b)) => *a == *b,
            _ => false,
        }
    }
}

impl vstd::std_specs::cmp::PartialEqSpecImpl for Token {
    open spec fn obeys_eq_spec() -> bool {
        true
    }

    open spec fn eq_spec(&self, other: &Token) -> bool {
        self@ == other@
    }
}

/// A character that always ends the word before it and may itself become a
/// token: space, the three unary operator characters, and punctuation.
pub open spec fn spec_is_delimiter(c: char) -> bool {
    c == ' ' || c == '!' || c == '~' || c == '-' || c == '(' || c == ')' || c == '}' || c == '{'
        || c == ';'
}

fn is_delimiter(c: char) -> (r: bool)
    ensures
        r == spec_is_delimiter(c),
{
    c == ' ' || c == '!' || c == '~' || c == '-' || c == '(' || c == ')' || c == '}' || c == '{'
        || c == ';'
}

/// A decimal digit.
pub open spec fn spec_is_digit(c: char) -> bool {
    '0' as int <= c as int && c as int <= '9' as int
}

/// The value of a decimal digit.
pub open spec fn spec_digit_val(c: char) -> int {
    c as int - '0' as int
}

/// The value of a run of decimal digits, most significant first.
pub open spec fn spec_dec_val(s: Seq<char>) -> int
    decreases s.len(),
{
    if s.len() == 0 {
        0
    } else {
        spec_dec_val(s.drop_last()) * 10 + spec_digit_val(s.last())
    }
}

pub open spec fn spec_all_digits(s: Seq<char>) -> bool {
    forall|i: int| 0 <= i < s.len() ==> spec_is_digit(#[trigger] s[i])
}

/// The digits of a numeral, with any single leading sign removed.
pub open spec fn spec_numeral_body(s: Seq<char>) -> Seq<char> {
    if s.len() > 0 && (s[0] == '+' || s[0] == '-') {
        s.skip(1)
    } else {
        s
    }
}

pub open spec fn spec_numeral_negative(s: Seq<char>) -> bool {
    s.len() > 0 && s[0] == '-'
}

/// The signed value of a numeral.
pub open spec fn spec_i32_numeral_val(s: Seq<char>) -> int {
    if spec_numeral_negative(s) {
        -spec_dec_val(spec_numeral_body(s))
    } else {
        spec_dec_val(spec_numeral_body(s))
    }
}

/// A word that reads as a 32-bit signed integer: an optional leading `+` or
/// `-`, then one or more decimal digits, with the value in range.
pub open spec fn spec_is_i32_numeral(s: Seq<char>) -> bool {
    &&& spec_numeral_body(s).len() > 0
    &&& spec_all_digits(spec_numeral_body(s))
    &&& i32::MIN <= spec_i32_numeral_val(s) <= i32::MAX
}

/// Relies on `str::parse::<i32>` (`i32::from_str`): it succeeds exactly on an
/// optional leading `+` or `-` followed by one or more decimal digits whose
/// signed value is in the `i32` range, and returns that value.
#[verifier::external_body]
fn parse_i32(input: &String) -> (r: Option<i32>)
    ensures
        r is Some <==> spec_is_i32_numeral(input@),
        r matches Some(v) ==> v as int == spec_i32_numeral_val(input@),
{
    input.as_str().parse::<i32>().ok()
}

/// The token, if any, that one candidate word stands for.
pub open spec fn spec_token_of(word: Seq<char>) -> Option<TokenView> {
    if word == ""@ || word == " "@ || word == "\n"@ {
        None
    } else if word == "("@ {
        Some(TokenView::OpenParenthesis)
    } else if word == ")"@ {
        Some(TokenView::CloseParenthesis)
    } else if word == "{"@ {
        Some(TokenView::OpenBrace)
    } else if word == "}"@ {
        Some(TokenView::CloseBrace)
    } else if word == ";"@ {
        Some(TokenView::Semicolon)
    } else if word == "int"@ {
        Some(TokenView::Int)
    } else if word == "-"@ {
        Some(TokenView::Op(Operator::Negation))
    } else if word == "~"@ {
        Some(TokenView::Op(Operator::BitwiseCompliment))
    } else if word == "!"@ {
        Some(TokenView::Op(Operator::LogicalNegation))
    } else if word == "return"@ {
        Some(TokenView::Return)
    } else if spec_is_i32_numeral(word) {
        Some(TokenView::IntLiteral(spec_i32_numeral_val(word)))
    } else {
        Some(TokenView::Identifier(word))
    }
}

impl Token {
    /// Classifies one candidate word, as `spec_token_of` says: blanks are
    /// dropped, fixed words map to their tokens, numerals parse as
    /// `IntLiteral`, and everything else becomes an `Identifier`.
    pub fn from_string(input: String) -> (r: Option<Token>)
        ensures
            match r {
                Some(t) => spec_token_of(input@) == Some(t@),
                None => spec_token_of(input@) is None,
            },
    {
        if input == String::from_str("") || input == String::from_str(" ") || input
            == String::from_str("\n") {
            None
        } else if input == String::from_str("(") {
            Some(Token::OpenParenthesis)
        } else if input == String::from_str(")") {
            Some(Token::CloseParenthesis)
        } else if input == String::from_str("{") {
            Some(Token::OpenBrace)
        } else if input == String::from_str("}") {
            Some(Token::CloseBrace)
        } else if input == String::from_str(";") {
            Some(Token::Semicolon)
        } else if input == String::from_str("int") {
            Some(Token::Int)
        } else if input == String::from_str("-") {
            Some(Token::Op(Operator::Negation))
        } else if input == String::from_str("~") {
            Some(Token::Op(Operator::BitwiseCompliment))
        } else if input == String::from_str("!") {
            Some(Token::Op(Operator::LogicalNegation))
        } else if input == String::from_str("return") {
            Some(Token::Return)
        } else {
            match parse_i32(&input) {
                Some(number) => Some(Token::IntLiteral(number)),
                None => Some(Token::Identifier(input)),
            }
        }
    }
}

pub open spec fn opt_to_seq(t: Option<TokenView>) -> Seq<TokenView> {
    match t {
        Some(v) => seq![v],
        None => Seq::empty(),
    }
}

/// The tokens of `rest`, scanned with `word` already accumulated as the
/// start of the current candidate word.
pub open spec fn spec_tokenize_with(rest: Seq<char>, word: Seq<char>) -> Seq<TokenView>
    decreases rest.len(),
{
    if rest.len() == 0 {
        opt_to_seq(spec_token_of(word))
    } else if spec_is_delimiter(rest[0]) {
        opt_to_seq(spec_token_of(word)) + opt_to_seq(spec_token_of(seq![rest[0]]))
            + spec_tokenize_with(rest.skip(1), Seq::empty())
    } else {
        spec_tokenize_with(rest.skip(1), word.push(rest[0]))
    }
}

/// The token sequence of a source text.
pub open spec fn spec_tokenize(s: Seq<char>) -> Seq<TokenView> {
    spec_tokenize_with(s, Seq::empty())
}

/// The value of a digit run is never negative.
pub proof fn lemma_dec_val_nonneg(s: Seq<char>)
    requires
        spec_all_digits(s),
    ensures
        spec_dec_val(s) >= 0,
    decreases s.len(),
{
    if s.len() > 0 {
        assert(spec_all_digits(s.drop_last()));
        lemma_dec_val_nonneg(s.drop_last());
    }
}

/// Scanning steps over a run of non-delimiter characters by accumulating it
/// onto the current word.
pub proof fn lemma_tokenize_word(w: Seq<char>, rest: Seq<char>, acc: Seq<char>)
    requires
        forall|i: int| 0 <= i < w.len() ==> !spec_is_delimiter(#[trigger] w[i]),
    ensures
        spec_tokenize_with(w + rest, acc) == spec_tokenize_with(rest, acc + w),
    decreases w.len(),
{
    if w.len() == 0 {
        assert(w + rest =~= rest);
        assert(acc + w =~= acc);
    } else {
        assert((w + rest)[0] == w[0]);
        assert((w + rest).skip(1) =~= w.skip(1) + rest);
        assert(forall|i: int|
            0 <= i < w.skip(1).len() ==> !spec_is_delimiter(#[trigger] w.skip(1)[i]));
        lemma_tokenize_word(w.skip(1), rest, acc.push(w[0]));
        assert(acc.push(w[0]) + w.skip(1) =~= acc + w);
    }
}

/// Scanning a delimiter ends the current word: both are classified, and the
/// scan goes on with an empty word.
pub proof fn lemma_tokenize_delimiter(d: char, rest: Seq<char>, acc: Seq<char>)
    requires
        spec_is_delimiter(d),
    ensures
        spec_tokenize_with(seq![d] + rest, acc) == opt_to_seq(spec_token_of(acc)) + opt_to_seq(
            spec_token_of(seq![d]),
        ) + spec_tokenize_with(rest, Seq::empty()),
{
    assert((seq![d] + rest)[0] == d);
    assert((seq![d] + rest).skip(1) =~= rest);
}

/// Lexing a whole program of the shape `int <name>() { return <literal>; }`:
/// for any word that classifies as the identifier `<name>` and any run of
/// decimal digits `<literal>` whose value is representable, the text lexes
/// to exactly the nine tokens of that shape.
pub proof fn lemma_tokenize_simple_function(name: Seq<char>, lit: Seq<char>)
    requires
        forall|i: int| 0 <= i < name.len() ==> !spec_is_delimiter(#[trigger] name[i]),
        spec_token_of(name) == Some(TokenView::Identifier(name)),
        lit.len() > 0,
        spec_all_digits(lit),
        spec_dec_val(lit) <= i32::MAX,
    ensures
        spec_tokenize("int "@ + name + "() { return "@ + lit + "; }"@) == seq![
            TokenView::Int,
            TokenView::Identifier(name),
            TokenView::OpenParenthesis,
            TokenView::CloseParenthesis,
            TokenView::OpenBrace,
            TokenView::Return,
            TokenView::IntLiteral(spec_dec_val(lit)),
            TokenView::Semicolon,
            TokenView::CloseBrace,
        ],
{
    reveal_strlit("");
    reveal_strlit(" ");
    reveal_strlit("\n");
    reveal_strlit("(");
    reveal_strlit(")");
    reveal_strlit("{");
    reveal_strlit("}");
    reveal_strlit(";");
    reveal_strlit("-");
    reveal_strlit("~");
    reveal_strlit("!");
    reveal_strlit("int");
    reveal_strlit("return");
    reveal_strlit("int ");
    reveal_strlit("() { return ");
    reveal_strlit("; }");
    let text = "int "@ + name + "() { return "@ + lit + "; }"@;
    let empty = Seq::<char>::empty();
    let s13 = seq!['}'] + empty;
    let s12 = seq![' '] + s13;
    let s11 = seq![';'] + s12;
    let s10 = lit + s11;
    let s9 = seq![' '] + s10;
    let s8 = "return"@ + s9;
    let s7 = seq![' '] + s8;
    let s6 = seq!['{'] + s7;
    let s5 = seq![' '] + s6;
    let s4 = seq![')'] + s5;
    let s3 = seq!['('] + s4;
    let s2 = name + s3;
    let s1 = seq![' '] + s2;
    let s0 = "int"@ + s1;
    assert(text =~= s0);
    // every character of the fixed words is outside the delimiter set
    assert(forall|i: int|
        0 <= i < "int"@.len() ==> !spec_is_delimiter(#[trigger] "int"@[i]));
    assert(forall|i: int|
        0 <= i < "return"@.len() ==> !spec_is_delimiter(#[trigger] "return"@[i]));
    // digits are not delimiters
    assert(forall|i: int| 0 <= i < lit.len() ==> !spec_is_delimiter(#[trigger] lit[i]));
    // how each emitted word classifies
    assert(empty =~= ""@);
    assert(spec_token_of(empty) is None);
    assert(seq![' '] =~= " "@);
    assert(spec_token_of(seq![' ']) is None);
    assert(seq![' '][0] == ' ' && seq!['('][0] == '(' && seq![')'][0] == ')' && seq!['{'][0] == '{'
        && seq!['}'][0] == '}' && seq![';'][0] == ';');
    assert(seq!['('] =~= "("@);
    assert(spec_token_of(seq!['(']) == Some(TokenView::OpenParenthesis));
    assert(seq![')'] =~= ")"@);
    assert(spec_token_of(seq![')']) == Some(TokenView::CloseParenthesis));
    assert(seq!['{'] =~= "{"@);
    assert(spec_token_of(seq!['{']) == Some(TokenView::OpenBrace));
    assert(seq!['}'] =~= "}"@);
    assert(spec_token_of(seq!['}']) == Some(TokenView::CloseBrace));
    assert(seq![';'] =~= ";"@);
    assert(spec_token_of(seq![';']) == Some(TokenView::Semicolon));
    assert(spec_token_of("int"@) == Some(TokenView::Int));
    assert(spec_token_of("return"@) == Some(TokenView::Return));
    // the literal is a numeral in range, so it classifies as `IntLiteral`
    lemma_dec_val_nonneg(lit);
    assert(spec_is_digit(lit[0]));
    assert(spec_numeral_body(lit) == lit);
    assert(spec_is_i32_numeral(lit));
    assert(spec_token_of(lit) == Some(TokenView::IntLiteral(spec_dec_val(lit))));
    // walk the text, one word or delimiter at a time
    lemma_tokenize_word("int"@, s1, empty);
    assert(empty + "int"@ =~= "int"@);
    lemma_tokenize_delimiter(' ', s2, "int"@);
    lemma_tokenize_word(name, s3, empty);
    assert(empty + name =~= name);
    lemma_tokenize_delimiter('(', s4, name);
    lemma_tokenize_delimiter(')', s5, empty);
    lemma_tokenize_delimiter(' ', s6, empty);
    lemma_tokenize_delimiter('{', s7, empty);
    lemma_tokenize_delimiter(' ', s8, empty);
    lemma_tokenize_word("return"@, s9, empty);
    assert(empty + "return"@ =~= "return"@);
    lemma_tokenize_delimiter(' ', s10, "return"@);
    lemma_tokenize_word(lit, s11, empty);
    assert(empty + lit =~= lit);
    lemma_tokenize_delimiter(';', s12, lit);
    lemma_tokenize_delimiter(' ', s13, empty);
    lemma_tokenize_delimiter('}', empty, empty);
    assert(spec_tokenize_with(empty, empty) == opt_to_seq(spec_token_of(empty)));
    assert(spec_tokenize(text) =~= seq![
        TokenView::Int,
        TokenView::Identifier(name),
        TokenView::OpenParenthesis,
        TokenView::CloseParenthesis,
        TokenView::OpenBrace,
        TokenView::Return,
        TokenView::IntLiteral(spec_dec_val(lit)),
        TokenView::Semicolon,
        TokenView::CloseBrace,
    ]);
}

/// Lexing is deterministic: any two token sequences lexed from the same
/// text, as `tokenize` describes its result, have the same view.
pub proof fn lemma_tokenize_deterministic(s: Seq<char>, a: Vec<Token>, b: Vec<Token>)
    requires
        a.deep_view() == spec_tokenize(s),
        b.deep_view() == spec_tokenize(s),
    ensures
        a.deep_view() == b.deep_view(),
{
}

pub trait Tokenize {
    /// The text that is scanned.
    spec fn text(self) -> Seq<char>;

    /// Scans the text into its tokens, in order of appearance.
    fn tokenize(self) -> (r: Vec<Token>)
        ensures
            r.deep_view() == spec_tokenize(self.text()),
    ;
}

impl Tokenize for &str {
    open spec fn text(self) -> Seq<char> {
        self@
    }

    fn tokenize(self) -> (r: Vec<Token>)
        ensures
            r.deep_view() == spec_tokenize(self@),
    {
        let n = self.unicode_len();
        let mut out: Vec<Token> = Vec::new();
        let mut start: usize = 0;
        let mut i: usize = 0;
        proof {
            assert(self@.skip(0) =~= self@);
            assert(self@.subrange(0, 0) =~= Seq::<char>::empty());
            assert(out.deep_view() =~= Seq::<TokenView>::empty());
            assert(Seq::<TokenView>::empty() + spec_tokenize_with(self@, Seq::empty())
                =~= spec_tokenize_with(self@, Seq::empty()));
        }
        while i < n
            invariant
                n == self@.len(),
                start <= i <= n,
                spec_tokenize(self@) == out.deep_view() + spec_tokenize_with(
                    self@.skip(i as int),
                    self@.subrange(start as int, i as int),
                ),
            decreases n - i,
        {
            let ghost text = self@;
            let c = self.get_char(i);
            if is_delimiter(c) {
                proof {
                    assert(text.skip(i as int)[0] == text[i as int]);
                }
                let word = self.substring_char(start, i);
                match Token::from_string(word.to_owned()) {
                    Some(t) => {
                        let ghost before = out.deep_view();
                        out.push(t);
                        proof {
                            assert(out.deep_view() =~= before.push(t@));
                        }
                    },
                    None => {},
                }
                let delim = self.substring_char(i, i + 1);
                match Token::from_string(delim.to_owned()) {
                    Some(t) => {
                        let ghost before = out.deep_view();
                        out.push(t);
                        proof {
                            assert(out.deep_view() =~= before.push(t@));
                        }
                    },
                    None => {},
                }
                proof {
                    assert(text.subrange(i as int, i as int + 1) =~= seq![text[i as int]]);
                    assert(text.skip(i as int).skip(1) =~= text.skip(i as int + 1));
                    assert(text.subrange(i as int + 1, i as int + 1) =~= Seq::<char>::empty());
                    assert(spec_tokenize(text) == out.deep_view() + spec_tokenize_with(
                        text.skip(i as int + 1),
                        text.subrange(i as int + 1, i as int + 1),
                    ));
                }
                start = i + 1;
            } else {
                proof {
                    assert(text.skip(i as int)[0] == text[i as int]);
                    assert(text.skip(i as int).skip(1) =~= text.skip(i as int + 1));
                    assert(text.subrange(start as int, i as int + 1) =~= text.subrange(
                        start as int,
                        i as int,
                    ).push(text[i as int]));
                }
            }
            i += 1;
        }
        let word = self.substring_char(start, n);
        match Token::from_string(word.to_owned()) {
            Some(t) => {
                let ghost before = out.deep_view();
                out.push(t);
                proof {
                    assert(out.deep_view() =~= before.push(t@));
                }
            },
            None => {},
        }
        proof {
            assert(self@.skip(n as int) =~= Seq::<char>::empty());
        }
        out
    }
}

} // verus!
