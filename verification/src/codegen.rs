use vstd::prelude::*;

use crate::ast::{Expr, Operator};

verus! {

/// The digit character for a value below ten.
pub open spec fn digit_char(d: nat) -> char {
    if d == 0 {
        '0'
    } else if d == 1 {
        '1'
    } else if d == 2 {
        '2'
    } else if d == 3 {
        '3'
    } else if d == 4 {
        '4'
    } else if d == 5 {
        '5'
    } else if d == 6 {
        '6'
    } else if d == 7 {
        '7'
    } else if d == 8 {
        '8'
    } else {
        '9'
    }
}

/// The decimal digits of a natural number, most significant first.
pub open spec fn spec_dec_nat(n: nat) -> Seq<char>
    decreases n,
{
    if n < 10 {
        seq![digit_char(n)]
    } else {
        spec_dec_nat(n / 10).push(digit_char(n % 10))
    }
}

/// The decimal rendering of a 64-bit signed value: a minus sign in front
/// of the digits of its magnitude when it is negative.
pub open spec fn spec_dec_i64(n: int) -> Seq<char> {
    if n < 0 {
        seq!['-'] + spec_dec_nat((-n) as nat)
    } else {
        spec_dec_nat(n as nat)
    }
}

/// The instructions for one operator, combining the accumulator `rax`
/// (holding the left operand) with `rcx` (holding the right operand).
pub open spec fn spec_op_code(op: Operator) -> Seq<char> {
    match op {
        Operator::Plus => "    add rax, rcx\n"@,
        Operator::Minus => "    sub rax, rcx\n"@,
        Operator::Star => "    imul rax, rcx\n"@,
        Operator::Slash => "    cqo\n    idiv rcx\n"@,
    }
}

/// The instruction sequence for one expression, by post-order traversal
/// with an explicit operand stack: the right operand is evaluated first
/// and pushed, the left is evaluated into the accumulator, then the saved
/// right value is popped into `rcx` and combined.
pub open spec fn spec_gen_expr(e: Expr) -> Seq<char>
    decreases e,
{
    match e {
        Expr::Number(n) => "    mov rax, "@ + spec_dec_i64(n as int) + "\n"@,
        Expr::BinaryOp { op, left, right } => spec_gen_expr(*right) + "    push rax\n"@
            + spec_gen_expr(*left) + "    pop rcx\n"@ + spec_op_code(op),
    }
}

/// The fixed wrapper around the generated instructions: a `_start` entry
/// point that calls `main` and exits the process with its return value,
/// then the `main` label.
pub open spec fn spec_asm_header() -> Seq<char> {
    "global _start\n        global main\n        section .text\n\n        _start:\n            call main\n            mov rdi, rax\n            mov rax, 60\n            syscall\n\n        main:\n        "@
}

/// The complete assembly text for one expression: the fixed wrapper, the
/// instructions computing the expression into `rax`, and the return.
pub open spec fn spec_generate_asm(e: Expr) -> Seq<char> {
    spec_asm_header() + spec_gen_expr(e) + "    ret\n"@
}

/// The one-character text of a digit value.
fn digit_str(d: u64) -> (r: &'static str)
    requires
        d < 10,
    ensures
        r@ == seq![digit_char(d as nat)],
{
    proof {
        reveal_strlit("0");
        reveal_strlit("1");
        reveal_strlit("2");
        reveal_strlit("3");
        reveal_strlit("4");
        reveal_strlit("5");
        reveal_strlit("6");
        reveal_strlit("7");
        reveal_strlit("8");
        reveal_strlit("9");
    }
    let r = if d == 0 {
        "0"
    } else if d == 1 {
        "1"
    } else if d == 2 {
        "2"
    } else if d == 3 {
        "3"
    } else if d == 4 {
        "4"
    } else if d == 5 {
        "5"
    } else if d == 6 {
        "6"
    } else if d == 7 {
        "7"
    } else if d == 8 {
        "8"
    } else {
        "9"
    };
    proof {
        assert(r@ =~= seq![digit_char(d as nat)]);
    }
    r
}

/// Appends the decimal digits of `n` to the buffer.
fn push_u64_dec(code: &mut String, n: u64)
    ensures
        final(code)@ == old(code)@ + spec_dec_nat(n as nat),
    decreases n,
{
    if n < 10 {
        code.append(digit_str(n));
    } else {
        push_u64_dec(code, n / 10);
        code.append(digit_str(n % 10));
        proof {
            assert(old(code)@ + spec_dec_nat((n / 10) as nat) + seq![
                digit_char((n % 10) as nat),
            ] =~= old(code)@ + spec_dec_nat(n as nat));
        }
    }
}

/// Appends the decimal rendering of `n` to the buffer.
fn push_i64_dec(code: &mut String, n: i64)
    ensures
        final(code)@ == old(code)@ + spec_dec_i64(n as int),
{
    if n < 0 {
        proof {
            reveal_strlit("-");
        }
        code.append("-");
        let m: u64 = (-(n as i128)) as u64;
        push_u64_dec(code, m);
        proof {
            assert("-"@ =~= seq!['-']);
            assert(old(code)@ + "-"@ + spec_dec_nat(m as nat) =~= old(code)@ + spec_dec_i64(
                n as int,
            ));
        }
    } else {
        push_u64_dec(code, n as u64);
    }
}

/// Appends the instructions for `expr` to the buffer, exactly as
/// [`spec_gen_expr`] lays them out.
fn gen_expr(expr: &Expr, code: &mut String)
    ensures
        final(code)@ == old(code)@ + spec_gen_expr(*expr),
    decreases expr,
{
    match expr {
        Expr::Number(n) => {
            code.append("    mov rax, ");
            push_i64_dec(code, *n);
            code.append("\n");
            proof {
                assert(old(code)@ + "    mov rax, "@ + spec_dec_i64(*n as int) + "\n"@
                    =~= old(code)@ + spec_gen_expr(*expr));
            }
        },
        Expr::BinaryOp { op, left, right } => {
            gen_expr(right, code);
            code.append("    push rax\n");
            gen_expr(left, code);
            code.append("    pop rcx\n");
            match op {
                Operator::Plus => code.append("    add rax, rcx\n"),
                Operator::Minus => code.append("    sub rax, rcx\n"),
                Operator::Star => code.append("    imul rax, rcx\n"),
                Operator::Slash => code.append("    cqo\n    idiv rcx\n"),
            }
            proof {
                assert(old(code)@ + spec_gen_expr(**right) + "    push rax\n"@ + spec_gen_expr(
                    **left,
                ) + "    pop rcx\n"@ + spec_op_code(*op) =~= old(code)@ + spec_gen_expr(*expr));
            }
        },
    }
}

/// Generates the complete assembly program computing `expr`.
///
/// The text is exactly [`spec_generate_asm`] for the expression; in
/// particular it is a function of the expression alone.
pub fn generate_asm(expr: &Expr) -> (r: String)
    ensures
        r@ == spec_generate_asm(*expr),
{
    let mut code = String::new();
    gen_expr(expr, &mut code);
    code.append("    ret\n");
    let mut out = String::from_str(
        "global _start\n        global main\n        section .text\n\n        _start:\n            call main\n            mov rdi, rax\n            mov rax, 60\n            syscall\n\n        main:\n        ",
    );
    out.append(code.as_str());
    proof {
        assert(spec_asm_header() + (spec_gen_expr(*expr) + "    ret\n"@) =~= spec_generate_asm(
            *expr,
        ));
    }
    out
}

} // verus!
