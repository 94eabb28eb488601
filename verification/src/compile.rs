//! Code generation: the abstract syntax tree to assembly text.
//!
//! The tree is walked depth-first in post order: an operand's code is
//! emitted before the instructions of the operator that consumes it, so the
//! operator nearest the literal executes first.  All expression results pass
//! through the primary register.

use crate::lex::{
    lemma_tokenize_simple_function, spec_all_digits, spec_dec_val, spec_is_delimiter,
    spec_token_of, spec_tokenize, Operator, TokenView, Tokenize,
};
use crate::parse::{
    lemma_parse_simple_function, spec_parse_prog, Expression, ExpressionView, Fun, FunView, Prog,
    ProgView, Return, ReturnView,
};
use vstd::prelude::*;

verus! {

/// The decimal digit character for `d`.
pub open spec fn spec_digit_char(d: int) -> char {
    if d == 0 {
        '0'
    } else if d == 1 {
        '1'
    } else if d == 2 {
        '2'
    } else if d == 3 {
        '3'
    } else if d == 4 {
        '4'
    } else if d == 5 {
        '5'
    } else if d == 6 {
        '6'
    } else if d == 7 {
        '7'
    } else if d == 8 {
        '8'
    } else {
        '9'
    }
}

/// The decimal digits of `n`, most significant first.
pub open spec fn spec_udec(n: nat) -> Seq<char>
    decreases n,
{
    if n < 10 {
        seq![spec_digit_char(n as int)]
    } else {
        spec_udec(n / 10).push(spec_digit_char((n % 10) as int))
    }
}

/// The decimal text of a signed value: a leading `-` for negatives.
pub open spec fn spec_i32_dec(v: int) -> Seq<char> {
    if v < 0 {
        seq!['-'] + spec_udec((-v) as nat)
    } else {
        spec_udec(v as nat)
    }
}

/// The instructions an operator appends to its operand's code.
pub open spec fn spec_op_code(op: Operator) -> Seq<char> {
    match op {
        Operator::Negation => "\n    neg %eax"@,
        Operator::BitwiseCompliment => "\n    not %eax"@,
        Operator::LogicalNegation => "\n    cmpl    $0, %eax\n    movl    $0, %eax\n    sete    %al"@,
    }
}

/// The code of an expression: a constant loads its value into the primary
/// register; a unary operation is its operand's code followed by the
/// operator's instructions.
pub open spec fn spec_compile_expr(e: ExpressionView) -> Seq<char>
    decreases e,
{
    match e {
        ExpressionView::Const(value) => "movl    $"@ + spec_i32_dec(value) + ", %eax"@,
        ExpressionView::UnOp(op, operand) => spec_compile_expr(*operand) + spec_op_code(op),
    }
}

/// The code of a function body: its expression's code, then a return.
pub open spec fn spec_compile_return(r: ReturnView) -> Seq<char> {
    spec_compile_expr(r.0) + "\n    ret"@
}

/// The code of a function: a global-symbol declaration and a label for its
/// name, then its body's code.
pub open spec fn spec_compile_fun(f: FunView) -> Seq<char> {
    "\n    .globl "@ + f.0 + "\n"@ + f.0 + ":\n    "@ + spec_compile_return(f.1)
}

/// The code of a program: exactly its one function's code.
pub open spec fn spec_compile_prog(p: ProgView) -> Seq<char> {
    spec_compile_fun(p.0)
}

fn digit_to_str(d: u32) -> (r: &'static str)
    requires
        d < 10,
    ensures
        r@ == seq![spec_digit_char(d as int)],
{
    if d == 0 {
        proof {
            reveal_strlit("0");
            assert("0"@ =~= seq!['0']);
        }
        "0"
    } else if d == 1 {
        proof {
            reveal_strlit("1");
            assert("1"@ =~= seq!['1']);
        }
        "1"
    } else if d == 2 {
        proof {
            reveal_strlit("2");
            assert("2"@ =~= seq!['2']);
        }
        "2"
    } else if d == 3 {
        proof {
            reveal_strlit("3");
            assert("3"@ =~= seq!['3']);
        }
        "3"
    } else if d == 4 {
        proof {
            reveal_strlit("4");
            assert("4"@ =~= seq!['4']);
        }
        "4"
    } else if d == 5 {
        proof {
            reveal_strlit("5");
            assert("5"@ =~= seq!['5']);
        }
        "5"
    } else if d == 6 {
        proof {
            reveal_strlit("6");
            assert("6"@ =~= seq!['6']);
        }
        "6"
    } else if d == 7 {
        proof {
            reveal_strlit("7");
            assert("7"@ =~= seq!['7']);
        }
        "7"
    } else if d == 8 {
        proof {
            reveal_strlit("8");
            assert("8"@ =~= seq!['8']);
        }
        "8"
    } else {
        proof {
            reveal_strlit("9");
            assert("9"@ =~= seq!['9']);
        }
        "9"
    }
}

fn udec_string(n: u32) -> (r: String)
    ensures
        r@ == spec_udec(n as nat),
    decreases n,
{
    if n < 10 {
        let mut s = String::new();
        s.append(digit_to_str(n));
        proof {
            assert(s@ =~= spec_udec(n as nat));
        }
        s
    } else {
        let mut s = udec_string(n / 10);
        s.append(digit_to_str(n % 10));
        proof {
            assert(s@ =~= spec_udec(n as nat));
        }
        s
    }
}

/// The decimal text of a 32-bit signed value.
fn int_to_string(value: i32) -> (r: String)
    ensures
        r@ == spec_i32_dec(value as int),
{
    if value >= 0 {
        udec_string(value as u32)
    } else {
        let magnitude: u32 = if value == i32::MIN {
            2147483648
        } else {
            (-value) as u32
        };
        let mut s = String::from_str("-");
        let digits = udec_string(magnitude);
        s.append(digits.as_str());
        proof {
            reveal_strlit("-");
            assert("-"@ =~= seq!['-']);
            assert(s@ =~= spec_i32_dec(value as int));
        }
        s
    }
}

fn op_code_str(op: Operator) -> (r: &'static str)
    ensures
        r@ == spec_op_code(op),
{
    match op {
        Operator::Negation => "\n    neg %eax",
        Operator::BitwiseCompliment => "\n    not %eax",
        Operator::LogicalNegation => "\n    cmpl    $0, %eax\n    movl    $0, %eax\n    sete    %al",
    }
}

fn compile_expression(e: &Expression) -> (r: String)
    ensures
        r@ == spec_compile_expr(e@),
    decreases e,
{
    match e {
        Expression::Const(value) => {
            let mut s = String::from_str("movl    $");
            let digits = int_to_string(*value);
            s.append(digits.as_str());
            s.append(", %eax");
            s
        },
        Expression::UnOp(op, operand) => {
            let mut s = compile_expression(&**operand);
            s.append(op_code_str(*op));
            s
        },
    }
}

pub trait Compile {
    /// Whether the receiver compiles; only source text that parses does.
    spec fn compile_req(self) -> bool;

    /// The assembly text the receiver compiles to.
    spec fn compile_spec(self) -> Seq<char>;

    /// Compiles the receiver to assembly text.
    fn compile(self) -> (r: String)
        requires
            self.compile_req(),
        ensures
            r@ == self.compile_spec(),
    ;
}

impl Compile for Expression {
    open spec fn compile_req(self) -> bool {
        true
    }

    open spec fn compile_spec(self) -> Seq<char> {
        spec_compile_expr(self@)
    }

    fn compile(self) -> (r: String) {
        compile_expression(&self)
    }
}

impl Compile for Return {
    open spec fn compile_req(self) -> bool {
        true
    }

    open spec fn compile_spec(self) -> Seq<char> {
        spec_compile_return(self@)
    }

    fn compile(self) -> (r: String) {
        let mut s = compile_expression(&self.0);
        s.append("\n    ret");
        s
    }
}

impl Compile for Fun {
    open spec fn compile_req(self) -> bool {
        true
    }

    open spec fn compile_spec(self) -> Seq<char> {
        spec_compile_fun(self@)
    }

    fn compile(self) -> (r: String) {
        let mut s = String::from_str("\n    .globl ");
        s.append(self.0.as_str());
        s.append("\n");
        s.append(self.0.as_str());
        s.append(":\n    ");
        let body = self.1.compile();
        s.append(body.as_str());
        s
    }
}

impl Compile for Prog {
    open spec fn compile_req(self) -> bool {
        true
    }

    open spec fn compile_spec(self) -> Seq<char> {
        spec_compile_prog(self@)
    }

    fn compile(self) -> (r: String) {
        self.0.compile()
    }
}

impl Compile for &str {
    open spec fn compile_req(self) -> bool {
        spec_parse_prog(spec_tokenize(self@)) is Ok
    }

    open spec fn compile_spec(self) -> Seq<char> {
        match spec_parse_prog(spec_tokenize(self@)) {
            Ok(p) => spec_compile_prog(p),
            Err(_) => Seq::empty(),
        }
    }

    fn compile(self) -> (r: String) {
        match Prog::from_str(self) {
            Ok(p) => p.compile(),
            Err(_) => vstd::pervasive::unreached(),
        }
    }
}

impl Compile for String {
    open spec fn compile_req(self) -> bool {
        spec_parse_prog(spec_tokenize(self@)) is Ok
    }

    open spec fn compile_spec(self) -> Seq<char> {
        match spec_parse_prog(spec_tokenize(self@)) {
            Ok(p) => spec_compile_prog(p),
            Err(_) => Seq::empty(),
        }
    }

    fn compile(self) -> (r: String) {
        self.as_str().compile()
    }
}

/// The code for a chained unary operation nests correctly: it is the
/// operand's code followed by the operator's instructions, so the operator
/// nearest the literal executes first and the outermost last.
pub proof fn lemma_unary_op_code(op: Operator, operand: ExpressionView)
    ensures
        spec_compile_expr(ExpressionView::UnOp(op, Box::new(operand))) == spec_compile_expr(
            operand,
        ) + spec_op_code(op),
{
}

/// The code of a program whose one function returns a constant: a
/// global-symbol declaration and a label for the name, then code that loads
/// the constant into the primary register and returns.
pub proof fn lemma_compile_simple_function(name: Seq<char>, value: int)
    ensures
        spec_compile_prog(ProgView(FunView(name, ReturnView(ExpressionView::Const(value)))))
            == "\n    .globl "@ + name + "\n"@ + name + ":\n    "@ + "movl    $"@ + spec_i32_dec(
            value,
        ) + ", %eax"@ + "\n    ret"@,
{
    assert("\n    .globl "@ + name + "\n"@ + name + ":\n    "@ + ("movl    $"@ + spec_i32_dec(
        value,
    ) + ", %eax"@ + "\n    ret"@) =~= "\n    .globl "@ + name + "\n"@ + name + ":\n    "@
        + "movl    $"@ + spec_i32_dec(value) + ", %eax"@ + "\n    ret"@);
}

/// The whole pipeline on a program of the shape
/// `int <name>() { return <literal>; }`: for any word that classifies as the
/// identifier `<name>` and any run of decimal digits `<literal>` whose value
/// is representable, the text parses, and its program compiles to a
/// global-symbol declaration and a label for `<name>`, code that loads
/// `<literal>` into the primary register, and a return.
pub proof fn lemma_simple_program_end_to_end(name: Seq<char>, lit: Seq<char>)
    requires
        forall|i: int| 0 <= i < name.len() ==> !spec_is_delimiter(#[trigger] name[i]),
        spec_token_of(name) == Some(TokenView::Identifier(name)),
        lit.len() > 0,
        spec_all_digits(lit),
        spec_dec_val(lit) <= i32::MAX,
    ensures
        spec_parse_prog(
            spec_tokenize("int "@ + name + "() { return "@ + lit + "; }"@),
        ) matches Ok(p) && spec_compile_prog(p) == "\n    .globl "@ + name + "\n"@ + name
            + ":\n    "@ + "movl    $"@ + spec_i32_dec(spec_dec_val(lit)) + ", %eax"@
            + "\n    ret"@,
{
    lemma_tokenize_simple_function(name, lit);
    let ts = spec_tokenize("int "@ + name + "() { return "@ + lit + "; }"@);
    lemma_parse_simple_function(ts, name, spec_dec_val(lit));
    lemma_compile_simple_function(name, spec_dec_val(lit));
}

} // verus!

