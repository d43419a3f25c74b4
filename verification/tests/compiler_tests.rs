use minicc::ast::{Expr, Operator};
use minicc::codegen::generate_asm;
use minicc::compile;
use minicc::lexer::{tokenize, LexError};
use minicc::parser::{ParseError, Parser};
use minicc::token::Token;
use minicc::CompileError;

fn parse_program(src: &str) -> Result<Expr, ParseError> {
    let tokens = tokenize(src).expect("tokenization should succeed");
    let mut parser = Parser::new(tokens);
    parser.parse()
}

fn full_program(body: &str) -> String {
    format!(
        "global _start\n        global main\n        section .text\n\n        _start:\n            call main\n            mov rdi, rax\n            mov rax, 60\n            syscall\n\n        main:\n        {}    ret\n",
        body
    )
}

fn bin(op: Operator, left: Expr, right: Expr) -> Expr {
    Expr::BinaryOp {
        op,
        left: Box::new(left),
        right: Box::new(right),
    }
}

#[test]
fn tokenize_simple_program() {
    let tokens = tokenize("int main(){return 42;}").unwrap();
    assert_eq!(
        tokens,
        vec![
            Token::Int,
            Token::Ident("main".to_string()),
            Token::LParen,
            Token::RParen,
            Token::LBrace,
            Token::Return,
            Token::Number(42),
            Token::Semicolon,
            Token::RBrace,
        ]
    );
}

#[test]
fn tokenize_skips_whitespace() {
    let tokens = tokenize(" \t\n int \n main ( ) { return \t 7 ; } \n").unwrap();
    assert_eq!(
        tokens,
        vec![
            Token::Int,
            Token::Ident("main".to_string()),
            Token::LParen,
            Token::RParen,
            Token::LBrace,
            Token::Return,
            Token::Number(7),
            Token::Semicolon,
            Token::RBrace,
        ]
    );
    assert_eq!(tokenize("").unwrap(), vec![]);
}

#[test]
fn tokenize_all_symbols() {
    let tokens = tokenize("+-*/(){};").unwrap();
    assert_eq!(
        tokens,
        vec![
            Token::Plus,
            Token::Minus,
            Token::Star,
            Token::Slash,
            Token::LParen,
            Token::RParen,
            Token::LBrace,
            Token::RBrace,
            Token::Semicolon,
        ]
    );
}

#[test]
fn keyword_recognition_needs_full_word() {
    // `intx` is one identifier, not `int` followed by `x`.
    let tokens = tokenize("intx returned int return").unwrap();
    assert_eq!(
        tokens,
        vec![
            Token::Ident("intx".to_string()),
            Token::Ident("returned".to_string()),
            Token::Int,
            Token::Return,
        ]
    );
}

#[test]
fn tokenize_identifier_and_number_boundaries() {
    // An identifier may hold underscores and digits after its first
    // character; a digit run ends where a letter begins.
    let tokens = tokenize("_a1 12ab 007").unwrap();
    assert_eq!(
        tokens,
        vec![
            Token::Ident("_a1".to_string()),
            Token::Number(12),
            Token::Ident("ab".to_string()),
            Token::Number(7),
        ]
    );
}

#[test]
fn lexical_rejection_of_percent() {
    // P6: an unsupported character fails lexing and produces no assembly.
    let result = tokenize("int main(){return 1%2;}");
    assert_eq!(
        result,
        Err(LexError::UnexpectedCharacter {
            position: 19,
            character: '%',
        })
    );
    match compile("int main(){return 1%2;}") {
        Err(CompileError::Lex(LexError::UnexpectedCharacter {
            position: 19,
            character: '%',
        })) => {}
        other => panic!("expected a lexical error, got {:?}", other),
    }
}

#[test]
fn lexical_rejection_of_non_ascii() {
    let result = tokenize("int main(){return 1\u{00e9};}");
    assert_eq!(
        result,
        Err(LexError::UnexpectedCharacter {
            position: 19,
            character: '\u{00e9}',
        })
    );
}

#[test]
fn literal_boundary_max_lexes() {
    // P8: the largest 64-bit signed literal lexes correctly.
    let tokens = tokenize("9223372036854775807").unwrap();
    assert_eq!(tokens, vec![Token::Number(9223372036854775807)]);
}

#[test]
fn literal_boundary_overflow_rejected() {
    // P8: one more than the largest value is a deterministic overflow error.
    let result = tokenize("9223372036854775808");
    assert_eq!(result, Err(LexError::NumericOverflow { position: 0 }));
    let in_context = tokenize("int main(){return 9223372036854775808;}");
    assert_eq!(in_context, Err(LexError::NumericOverflow { position: 18 }));
}

#[test]
fn precedence_multiplication_binds_tighter() {
    // P2: in `1 + 2 * 3`, multiplication's operands are 2 and 3.
    let tree = parse_program("int main(){return 1 + 2 * 3;}").unwrap();
    assert_eq!(
        tree,
        bin(
            Operator::Plus,
            Expr::Number(1),
            bin(Operator::Star, Expr::Number(2), Expr::Number(3)),
        )
    );
}

#[test]
fn subtraction_is_left_associative() {
    // P3: `10 - 2 - 3` parses as `(10 - 2) - 3`, which computes 5, not 11.
    let tree = parse_program("int main(){return 10 - 2 - 3;}").unwrap();
    assert_eq!(
        tree,
        bin(
            Operator::Minus,
            bin(Operator::Minus, Expr::Number(10), Expr::Number(2)),
            Expr::Number(3),
        )
    );
    // The emitted program computes left minus right at every node.
    let text = compile("int main(){return 10 - 2 - 3;}").unwrap();
    assert_eq!(
        text,
        full_program(
            "    mov rax, 3\n    push rax\n    mov rax, 2\n    push rax\n    mov rax, 10\n    pop rcx\n    sub rax, rcx\n    pop rcx\n    sub rax, rcx\n"
        )
    );
}

#[test]
fn parenthesization_overrides_precedence() {
    // P4: `(1 + 2) * 3` groups the addition first, so the result is 9.
    let tree = parse_program("int main(){return (1 + 2) * 3;}").unwrap();
    assert_eq!(
        tree,
        bin(
            Operator::Star,
            bin(Operator::Plus, Expr::Number(1), Expr::Number(2)),
            Expr::Number(3),
        )
    );
}

#[test]
fn division_uses_signed_truncating_instructions() {
    // P5: `7 / 2` is signed division truncating toward zero: the emitted
    // code sign-extends rax and divides by rcx, yielding 3 at run time.
    let tree = parse_program("int main(){return 7 / 2;}").unwrap();
    assert_eq!(tree, bin(Operator::Slash, Expr::Number(7), Expr::Number(2)));
    let text = compile("int main(){return 7 / 2;}").unwrap();
    assert_eq!(
        text,
        full_program(
            "    mov rax, 2\n    push rax\n    mov rax, 7\n    pop rcx\n    cqo\n    idiv rcx\n"
        )
    );
}

#[test]
fn grammar_rejection_two_statements() {
    // P7: a second statement in the body violates the fixed grammar.
    let result = parse_program("int main(){return 1; return 2;}");
    assert_eq!(
        result,
        Err(ParseError::ExpectedToken {
            expected: Token::RBrace,
            found: Some(Token::Return),
            position: 8,
        })
    );
}

#[test]
fn grammar_rejection_missing_semicolon() {
    // P7: the trailing semicolon is required.
    let result = parse_program("int main(){return 1}");
    assert_eq!(
        result,
        Err(ParseError::ExpectedToken {
            expected: Token::Semicolon,
            found: Some(Token::RBrace),
            position: 7,
        })
    );
}

#[test]
fn grammar_rejection_trailing_tokens() {
    // The input must be exactly one function: a second function after the
    // closing brace is rejected, and no assembly is produced for it.
    let result = parse_program("int main(){return 1;} int main(){return 2;}");
    assert_eq!(
        result,
        Err(ParseError::UnexpectedToken {
            found: Some(Token::Int),
            position: 9,
        })
    );
    assert!(compile("int main(){return 1;} int main(){return 2;}").is_err());
}

#[test]
fn grammar_rejection_stray_token_after_brace() {
    let result = parse_program("int main(){return 1;};");
    assert_eq!(
        result,
        Err(ParseError::UnexpectedToken {
            found: Some(Token::Semicolon),
            position: 9,
        })
    );
}

#[test]
fn grammar_rejection_wrong_entry_point_name() {
    let result = parse_program("int foo(){return 1;}");
    assert_eq!(
        result,
        Err(ParseError::ExpectedToken {
            expected: Token::Ident("main".to_string()),
            found: Some(Token::Ident("foo".to_string())),
            position: 1,
        })
    );
}

#[test]
fn grammar_rejection_empty_input() {
    let result = parse_program("");
    assert_eq!(
        result,
        Err(ParseError::ExpectedToken {
            expected: Token::Int,
            found: None,
            position: 0,
        })
    );
}

#[test]
fn grammar_rejection_unary_minus() {
    // The grammar has no unary operators: `-1` cannot start a primary.
    let result = parse_program("int main(){return -1;}");
    assert_eq!(
        result,
        Err(ParseError::UnexpectedToken {
            found: Some(Token::Minus),
            position: 6,
        })
    );
}

#[test]
fn end_to_end_scenario() {
    // P9: `int main(){return 2+3*4;}` parses to the expected tree and
    // compiles to the program that exits with status 14.
    let src = "int main(){return 2+3*4;}";
    let tree = parse_program(src).unwrap();
    assert_eq!(
        tree,
        bin(
            Operator::Plus,
            Expr::Number(2),
            bin(Operator::Star, Expr::Number(3), Expr::Number(4)),
        )
    );
    let text = compile(src).unwrap();
    assert_eq!(
        text,
        full_program(
            "    mov rax, 4\n    push rax\n    mov rax, 3\n    pop rcx\n    imul rax, rcx\n    push rax\n    mov rax, 2\n    pop rcx\n    add rax, rcx\n"
        )
    );
}

#[test]
fn round_trip_determinism() {
    // P1: compiling the same source text twice yields byte-identical text.
    let src = "int main(){return (8 - 2) * (3 + 1) / 4;}";
    let first = compile(src).unwrap();
    let second = compile(src).unwrap();
    assert_eq!(first, second);
    assert_eq!(first.as_bytes(), second.as_bytes());
}

#[test]
fn formatting_does_not_change_the_tree() {
    let compact = parse_program("int main(){return 1+2;}").unwrap();
    let spaced = parse_program("int \n main ( ) { \t return 1 + 2 ; }").unwrap();
    assert_eq!(compact, spaced);
}

#[test]
fn generate_negative_literal() {
    // The parser never produces negative literals, but code generation is
    // total over every tree, including hand-built ones.
    let text = generate_asm(&Expr::Number(-5));
    assert_eq!(text, full_program("    mov rax, -5\n"));
    let min = generate_asm(&Expr::Number(i64::MIN));
    assert_eq!(min, full_program("    mov rax, -9223372036854775808\n"));
}

#[test]
fn generate_single_number() {
    let text = compile("int main(){return 0;}").unwrap();
    assert_eq!(text, full_program("    mov rax, 0\n"));
    let max = compile("int main(){return 9223372036854775807;}").unwrap();
    assert_eq!(max, full_program("    mov rax, 9223372036854775807\n"));
}

#[test]
fn division_by_zero_still_compiles() {
    // A zero divisor is a run-time fault of the emitted program, not a
    // compile-time error.
    let text = compile("int main(){return 7 / 0;}").unwrap();
    assert_eq!(
        text,
        full_program(
            "    mov rax, 0\n    push rax\n    mov rax, 7\n    pop rcx\n    cqo\n    idiv rcx\n"
        )
    );
}

#[test]
fn nested_parentheses() {
    let tree = parse_program("int main(){return ((2));}").unwrap();
    assert_eq!(tree, Expr::Number(2));
    let result = parse_program("int main(){return (1 + 2;}");
    assert_eq!(
        result,
        Err(ParseError::ExpectedToken {
            expected: Token::RParen,
            found: Some(Token::Semicolon),
            position: 10,
        })
    );
}
