use minicc::compile::Compile;
use minicc::lex::Operator;
use minicc::parse::{Expression, Return};

#[test]
fn compile_it_lexes_sample_input() {
    let input = "\
int main() {
    return 2;
}";
    let output = "
    .globl main
main:
    movl    $2, %eax
    ret";
    assert_eq!(input.compile(), output);
}

#[test]
fn it_lexes_operators() {
    let input = "\
int main() {
    return -~!2;
}";
    let output = "
    .globl main
main:
    movl    $2, %eax
    cmpl    $0, %eax
    movl    $0, %eax
    sete    %al
    not %eax
    neg %eax
    ret";
    assert_eq!(input.compile(), output);
}

#[test]
fn any_name_and_literal_compile() {
    let input = "int answer() { return 42; }";
    let output = "
    .globl answer
answer:
    movl    $42, %eax
    ret";
    assert_eq!(input.compile(), output);
}

#[test]
fn compiles_a_string_input() {
    let input = String::from("int main() { return 0; }");
    let output = "
    .globl main
main:
    movl    $0, %eax
    ret";
    assert_eq!(input.compile(), output);
}

#[test]
fn unary_operation_code_follows_its_operand() {
    let expression = Expression::UnOp(Operator::Negation, Box::new(Expression::Const(3)));
    assert_eq!(expression.compile(), "movl    $3, %eax\n    neg %eax");
}

#[test]
fn return_code_ends_with_ret() {
    let body = Return(Expression::Const(2));
    assert_eq!(body.compile(), "movl    $2, %eax\n    ret");
}

#[test]
fn extreme_constants_print_in_decimal() {
    assert_eq!(
        Expression::Const(i32::MIN).compile(),
        "movl    $-2147483648, %eax"
    );
    assert_eq!(
        Expression::Const(i32::MAX).compile(),
        "movl    $2147483647, %eax"
    );
    assert_eq!(Expression::Const(0).compile(), "movl    $0, %eax");
}
