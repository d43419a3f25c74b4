//! A verified compiler for a minimal subset of C: a single `main` function
//! whose body is exactly `return <arithmetic-expression>;`, translated to
//! textual assembly for a 64-bit Linux target.
//!
//! The pipeline is linear: source text is tokenized by [`lexer::tokenize`],
//! the token sequence is parsed into an expression tree by
//! [`parser::Parser::parse`], and [`codegen::generate_asm`] emits the
//! assembly text. Each stage is a pure function of its input, and each
//! carries a contract pinning its result down exactly.

pub mod ast;
pub mod codegen;
pub mod lexer;
pub mod parser;
pub mod token;

use vstd::prelude::*;

use crate::codegen::{generate_asm, spec_generate_asm};
use crate::lexer::{spec_lex_from, supported_char, tokenize, LexError, SpecLexError};
use crate::parser::{spec_parse_program, ParseError, Parser, SpecParseError};

verus! {

/// A failure of either front-end stage. Code generation cannot fail: it is
/// total over every well-formed expression tree.
#[derive(Debug, PartialEq, Eq)]
pub enum CompileError {
    /// Tokenization failed.
    Lex(LexError),
    /// The token sequence violated the fixed grammar.
    Parse(ParseError),
}

/// The mathematical image of a [`CompileError`].
pub enum SpecCompileError {
    Lex(SpecLexError),
    Parse(SpecParseError),
}

impl View for CompileError {
    type V = SpecCompileError;

    open spec fn view(&self) -> SpecCompileError {
        match self {
            CompileError::Lex(e) => SpecCompileError::Lex(e@),
            CompileError::Parse(e) => SpecCompileError::Parse(e@),
        }
    }
}

/// The whole pipeline as a mathematical function: the assembly text for a
/// source text, or the first error on the way there.
pub open spec fn spec_compile(s: Seq<char>) -> Result<Seq<char>, SpecCompileError> {
    match spec_lex_from(s, 0) {
        Err(e) => Err(SpecCompileError::Lex(e)),
        Ok(toks) => match spec_parse_program(toks, 0) {
            Err(e) => Err(SpecCompileError::Parse(e)),
            Ok(expr) => Ok(spec_generate_asm(expr)),
        },
    }
}

/// A compilation outcome as the mathematical model sees it.
pub open spec fn compile_result_view(r: Result<String, CompileError>) -> Result<
    Seq<char>,
    SpecCompileError,
> {
    match r {
        Ok(text) => Ok(text@),
        Err(e) => Err(e@),
    }
}

/// Compiles one source text: tokenize, parse, generate.
///
/// The outcome is exactly [`spec_compile`] of the text.
pub fn compile(source: &str) -> (r: Result<String, CompileError>)
    ensures
        compile_result_view(r) == spec_compile(source@),
{
    let tokens = match tokenize(source) {
        Ok(t) => t,
        Err(e) => {
            return Err(CompileError::Lex(e));
        },
    };
    let mut parser = Parser::new(tokens);
    let expr = match parser.parse() {
        Ok(e) => e,
        Err(e) => {
            return Err(CompileError::Parse(e));
        },
    };
    Ok(generate_asm(&expr))
}

/// Round-trip determinism: the compilation outcome is a function of the
/// source text alone, so compiling the same text twice yields byte-identical
/// assembly (or the identical error). [`compile`] pins its result to
/// [`spec_compile`], which this law holds to a single value per text.
pub proof fn lemma_compile_deterministic(s1: Seq<char>, s2: Seq<char>)
    requires
        s1 == s2,
    ensures
        spec_compile(s1) == spec_compile(s2),
{
}

/// Lexical rejection, end to end: a source text holding any character
/// outside the supported set never compiles; the outcome is a lexical
/// error, and no assembly text is produced for it.
pub proof fn lemma_compile_rejects_unsupported(s: Seq<char>, k: int)
    requires
        0 <= k < s.len(),
        !supported_char(s[k]),
    ensures
        spec_compile(s) matches Err(SpecCompileError::Lex(_)),
{
    crate::lexer::lemma_lex_rejects_unsupported(s, k);
}

} // verus!
