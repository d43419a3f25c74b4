use vstd::prelude::*;

use crate::token::{SpecToken, Token};

verus! {

/// A lexical error. Tokenization aborts at the first one.
#[derive(Debug, Clone, Copy, PartialEq, Eq)]
pub enum LexError {
    /// A character outside the supported set, with its character index.
    UnexpectedCharacter { position: usize, character: char },
    /// An integer literal beyond the 64-bit signed range, with the index
    /// of its first digit.
    NumericOverflow { position: usize },
}

/// The mathematical image of a [`LexError`], with the position as a plain
/// natural number.
pub enum SpecLexError {
    UnexpectedCharacter { position: nat, character: char },
    NumericOverflow { position: nat },
}

impl View for LexError {
    type V = SpecLexError;

    open spec fn view(&self) -> SpecLexError {
        match self {
            LexError::UnexpectedCharacter { position, character } => {
                SpecLexError::UnexpectedCharacter {
                    position: *position as nat,
                    character: *character,
                }
            },
            LexError::NumericOverflow { position } => {
                SpecLexError::NumericOverflow { position: *position as nat }
            },
        }
    }
}

/// The whitespace characters the lexer skips: space, newline, tab.
pub open spec fn is_whitespace_char(c: char) -> bool {
    c == ' ' || c == '\n' || c == '\t'
}

/// Decimal digits `0` through `9`.
pub open spec fn is_digit_char(c: char) -> bool {
    48 <= c as u32 && c as u32 <= 57
}

/// Characters that may open an identifier: letters and underscore.
pub open spec fn is_ident_start_char(c: char) -> bool {
    (65 <= c as u32 && c as u32 <= 90) || (97 <= c as u32 && c as u32 <= 122) || c == '_'
}

/// Characters that may continue an identifier.
pub open spec fn is_ident_char(c: char) -> bool {
    is_ident_start_char(c) || is_digit_char(c)
}

/// The token for a one-character symbol, or `None` for any character that
/// is no symbol of the language.
pub open spec fn symbol_token(c: char) -> Option<SpecToken> {
    if c == '+' {
        Some(SpecToken::Plus)
    } else if c == '-' {
        Some(SpecToken::Minus)
    } else if c == '*' {
        Some(SpecToken::Star)
    } else if c == '/' {
        Some(SpecToken::Slash)
    } else if c == '(' {
        Some(SpecToken::LParen)
    } else if c == ')' {
        Some(SpecToken::RParen)
    } else if c == '{' {
        Some(SpecToken::LBrace)
    } else if c == '}' {
        Some(SpecToken::RBrace)
    } else if c == ';' {
        Some(SpecToken::Semicolon)
    } else {
        None
    }
}

/// Every character the lexer accepts in some position.
pub open spec fn supported_char(c: char) -> bool {
    is_whitespace_char(c) || is_digit_char(c) || is_ident_start_char(c) || symbol_token(c) is Some
}

/// The index just past the maximal run of digits starting at `i`.
pub open spec fn digit_run_end(s: Seq<char>, i: nat) -> nat
    decreases s.len() - i,
    when i <= s.len()
{
    if i < s.len() && is_digit_char(s[i as int]) {
        digit_run_end(s, i + 1)
    } else {
        i
    }
}

/// The index just past the maximal run of identifier characters starting at `i`.
pub open spec fn ident_run_end(s: Seq<char>, i: nat) -> nat
    decreases s.len() - i,
    when i <= s.len()
{
    if i < s.len() && is_ident_char(s[i as int]) {
        ident_run_end(s, i + 1)
    } else {
        i
    }
}

pub proof fn lemma_digit_run_end(s: Seq<char>, i: nat)
    requires
        i <= s.len(),
    ensures
        i <= digit_run_end(s, i) <= s.len(),
        forall|k: int| i <= k < digit_run_end(s, i) ==> is_digit_char(s[k]),
        digit_run_end(s, i) < s.len() ==> !is_digit_char(s[digit_run_end(s, i) as int]),
    decreases s.len() - i,
{
    if i < s.len() && is_digit_char(s[i as int]) {
        lemma_digit_run_end(s, i + 1);
    }
}

pub proof fn lemma_ident_run_end(s: Seq<char>, i: nat)
    requires
        i <= s.len(),
    ensures
        i <= ident_run_end(s, i) <= s.len(),
        forall|k: int| i <= k < ident_run_end(s, i) ==> is_ident_char(s[k]),
        ident_run_end(s, i) < s.len() ==> !is_ident_char(s[ident_run_end(s, i) as int]),
    decreases s.len() - i,
{
    if i < s.len() && is_ident_char(s[i as int]) {
        lemma_ident_run_end(s, i + 1);
    }
}

/// The numeric value of a digit character.
pub open spec fn digit_val(c: char) -> nat {
    (c as u32 - 48) as nat
}

/// The value of a sequence of decimal digits, most significant first.
pub open spec fn digits_val(digs: Seq<char>) -> nat
    decreases digs.len(),
{
    if digs.len() == 0 {
        0
    } else {
        digits_val(digs.drop_last()) * 10 + digit_val(digs.last())
    }
}

proof fn lemma_digits_val_step(s: Seq<char>, a: int, b: int)
    requires
        0 <= a <= b < s.len(),
    ensures
        digits_val(s.subrange(a, b + 1)) == digits_val(s.subrange(a, b)) * 10 + digit_val(s[b]),
{
    assert(s.subrange(a, b + 1).drop_last() =~= s.subrange(a, b));
    assert(s.subrange(a, b + 1).last() == s[b]);
}

/// Extending a digit string can only keep or grow its value.
proof fn lemma_digits_val_prefix(t: Seq<char>, n: int)
    requires
        0 <= n <= t.len(),
    ensures
        digits_val(t.subrange(0, n)) <= digits_val(t),
    decreases t.len(),
{
    if n < t.len() {
        assert(t.drop_last().subrange(0, n) =~= t.subrange(0, n));
        lemma_digits_val_prefix(t.drop_last(), n);
    } else {
        assert(t.subrange(0, n) =~= t);
    }
}

/// The token for a maximal identifier run: the two reserved words become
/// keywords, anything else an identifier. Keyword recognition applies to
/// the full run, so `intx` is an identifier, not `int` followed by `x`.
pub open spec fn word_token(w: Seq<char>) -> SpecToken {
    if w == "int"@ {
        SpecToken::Int
    } else if w == "return"@ {
        SpecToken::Return
    } else {
        SpecToken::Ident(w)
    }
}

/// Prepends one token to a tokenization outcome.
pub open spec fn cons_token(t: SpecToken, r: Result<Seq<SpecToken>, SpecLexError>) -> Result<
    Seq<SpecToken>,
    SpecLexError,
> {
    match r {
        Ok(rest) => Ok(seq![t] + rest),
        Err(e) => Err(e),
    }
}

/// The tokens of `s` from position `i` on, or the first lexical error.
///
/// This is the lexer, stated as a mathematical function: skip whitespace,
/// turn a maximal digit run into one literal (rejecting values beyond the
/// 64-bit signed range), a maximal identifier run into one keyword or
/// identifier, a symbol into its token, and stop at the first character
/// that fits none of these.
pub open spec fn spec_lex_from(s: Seq<char>, i: nat) -> Result<Seq<SpecToken>, SpecLexError>
    decreases s.len() - i,
    when i <= s.len()
    via spec_lex_from_decreases
{
    if i >= s.len() {
        Ok(Seq::empty())
    } else {
        let c = s[i as int];
        if is_whitespace_char(c) {
            spec_lex_from(s, i + 1)
        } else if is_digit_char(c) {
            let j = digit_run_end(s, i);
            let v = digits_val(s.subrange(i as int, j as int));
            if v > i64::MAX as nat {
                Err(SpecLexError::NumericOverflow { position: i })
            } else {
                cons_token(SpecToken::Number(v as i64), spec_lex_from(s, j))
            }
        } else if is_ident_start_char(c) {
            let j = ident_run_end(s, i);
            cons_token(word_token(s.subrange(i as int, j as int)), spec_lex_from(s, j))
        } else {
            match symbol_token(c) {
                Some(t) => cons_token(t, spec_lex_from(s, i + 1)),
                None => Err(SpecLexError::UnexpectedCharacter { position: i, character: c }),
            }
        }
    }
}

#[via_fn]
proof fn spec_lex_from_decreases(s: Seq<char>, i: nat) {
    if i < s.len() {
        let c = s[i as int];
        if is_digit_char(c) {
            lemma_digit_run_end(s, i + 1);
            assert(digit_run_end(s, i) == digit_run_end(s, i + 1));
        } else if is_ident_start_char(c) {
            lemma_ident_run_end(s, i + 1);
            assert(ident_run_end(s, i) == ident_run_end(s, i + 1));
        }
    }
}

/// A tokenization outcome as the mathematical model sees it.
pub open spec fn lex_result_view(r: Result<Vec<Token>, LexError>) -> Result<
    Seq<SpecToken>,
    SpecLexError,
> {
    match r {
        Ok(toks) => Ok(toks.deep_view()),
        Err(e) => Err(e@),
    }
}

/// Already-emitted tokens in front of the outcome for the rest of the text.
spec fn lex_prepend(pre: Seq<SpecToken>, r: Result<Seq<SpecToken>, SpecLexError>) -> Result<
    Seq<SpecToken>,
    SpecLexError,
> {
    match r {
        Ok(rest) => Ok(pre + rest),
        Err(e) => Err(e),
    }
}

proof fn lemma_lex_prepend_cons(
    pre: Seq<SpecToken>,
    t: SpecToken,
    r: Result<Seq<SpecToken>, SpecLexError>,
)
    ensures
        lex_prepend(pre, cons_token(t, r)) == lex_prepend(pre.push(t), r),
{
    match r {
        Ok(rest) => {
            assert(pre + (seq![t] + rest) =~= pre.push(t) + rest);
        },
        Err(_) => {},
    }
}

fn is_whitespace(c: char) -> (r: bool)
    ensures
        r == is_whitespace_char(c),
{
    c == ' ' || c == '\n' || c == '\t'
}

fn is_digit(c: char) -> (r: bool)
    ensures
        r == is_digit_char(c),
{
    let u = c as u32;
    48 <= u && u <= 57
}

fn is_ident_start(c: char) -> (r: bool)
    ensures
        r == is_ident_start_char(c),
{
    let u = c as u32;
    (65 <= u && u <= 90) || (97 <= u && u <= 122) || c == '_'
}

fn is_ident(c: char) -> (r: bool)
    ensures
        r == is_ident_char(c),
{
    is_ident_start(c) || is_digit(c)
}

/// Tokenizes the source text, or reports the first lexical error.
///
/// The result is exactly what [`spec_lex_from`] says for the text: the
/// same tokens in the same order, or the same error at the same position.
pub fn tokenize(input: &str) -> (r: Result<Vec<Token>, LexError>)
    ensures
        lex_result_view(r) == spec_lex_from(input@, 0),
{
    let ghost s = input@;
    let n = input.unicode_len();
    let mut tokens: Vec<Token> = Vec::new();
    let mut i: usize = 0;
    while i < n
        invariant
            n == s.len(),
            s == input@,
            i <= n,
            spec_lex_from(s, 0) == lex_prepend(tokens.deep_view(), spec_lex_from(s, i as nat)),
        decreases n - i,
    {
        let c = input.get_char(i);
        if is_whitespace(c) {
            i += 1;
        } else if is_digit(c) {
            let ghost i0 = i as nat;
            let start = i;
            let mut val: u128 = 0;
            loop
                invariant
                    n == s.len(),
                    s == input@,
                    start == i0,
                    start <= i <= n,
                    forall|k: int| start <= k < i ==> is_digit_char(s[k]),
                    digit_run_end(s, i0) == digit_run_end(s, i as nat),
                    val as nat == digits_val(s.subrange(start as int, i as int)),
                    val <= i64::MAX as u128,
                    spec_lex_from(s, 0) == lex_prepend(
                        tokens.deep_view(),
                        spec_lex_from(s, i0),
                    ),
                ensures
                    start <= i <= n,
                    i as nat == digit_run_end(s, i0),
                    val as nat == digits_val(s.subrange(start as int, i as int)),
                    val <= i64::MAX as u128,
                decreases n - i,
            {
                if i >= n {
                    break ;
                }
                let c2 = input.get_char(i);
                if !is_digit(c2) {
                    break ;
                }
                let d: u128 = (c2 as u32 - 48) as u128;
                let nv: u128 = val * 10 + d;
                proof {
                    lemma_digits_val_step(s, start as int, i as int);
                }
                if nv > i64::MAX as u128 {
                    proof {
                        let j = digit_run_end(s, i0);
                        lemma_digit_run_end(s, i as nat + 1);
                        assert(digit_run_end(s, i as nat) == digit_run_end(s, i as nat + 1));
                        assert(i + 1 <= j <= n);
                        let full = s.subrange(start as int, j as int);
                        assert(full.subrange(0, i + 1 - start) =~= s.subrange(
                            start as int,
                            i as int + 1,
                        ));
                        lemma_digits_val_prefix(full, i + 1 - start);
                        assert(digits_val(full) > i64::MAX as nat);
                    }
                    return Err(LexError::NumericOverflow { position: start });
                }
                val = nv;
                i += 1;
            }
            let tok = Token::Number(val as i64);
            let ghost dv = tokens.deep_view();
            let ghost tokv = tok@;
            tokens.push(tok);
            proof {
                let j = digit_run_end(s, i0);
                lemma_digit_run_end(s, i0 + 1);
                assert(j == digit_run_end(s, i0 + 1));
                assert(i0 + 1 <= j <= n);
                let v = digits_val(s.subrange(start as int, j as int));
                assert(v == val as nat);
                assert(spec_lex_from(s, i0) == cons_token(
                    SpecToken::Number(v as i64),
                    spec_lex_from(s, j),
                ));
                assert(tokv == SpecToken::Number(v as i64));
                lemma_lex_prepend_cons(dv, tokv, spec_lex_from(s, j));
                assert(tokens.deep_view() =~= dv.push(tokv));
            }
        } else if is_ident_start(c) {
            let ghost i0 = i as nat;
            let start = i;
            loop
                invariant
                    n == s.len(),
                    s == input@,
                    start == i0,
                    start <= i <= n,
                    ident_run_end(s, i0) == ident_run_end(s, i as nat),
                ensures
                    start <= i <= n,
                    i as nat == ident_run_end(s, i0),
                decreases n - i,
            {
                if i >= n {
                    break ;
                }
                let c2 = input.get_char(i);
                if !is_ident(c2) {
                    break ;
                }
                i += 1;
            }
            let word = input.substring_char(start, i);
            let w = word.to_owned();
            let tok = if w == String::from_str("int") {
                Token::Int
            } else if w == String::from_str("return") {
                Token::Return
            } else {
                Token::Ident(w)
            };
            let ghost dv = tokens.deep_view();
            let ghost tokv = tok@;
            tokens.push(tok);
            proof {
                let j = ident_run_end(s, i0);
                lemma_ident_run_end(s, i0 + 1);
                assert(j == ident_run_end(s, i0 + 1));
                assert(i0 + 1 <= j <= n);
                assert(spec_lex_from(s, i0) == cons_token(
                    word_token(s.subrange(start as int, j as int)),
                    spec_lex_from(s, j),
                ));
                assert(tokv == word_token(s.subrange(start as int, j as int)));
                lemma_lex_prepend_cons(dv, tokv, spec_lex_from(s, j));
                assert(tokens.deep_view() =~= dv.push(tokv));
            }
        } else {
            let sym = if c == '+' {
                Some(Token::Plus)
            } else if c == '-' {
                Some(Token::Minus)
            } else if c == '*' {
                Some(Token::Star)
            } else if c == '/' {
                Some(Token::Slash)
            } else if c == '(' {
                Some(Token::LParen)
            } else if c == ')' {
                Some(Token::RParen)
            } else if c == '{' {
                Some(Token::LBrace)
            } else if c == '}' {
                Some(Token::RBrace)
            } else if c == ';' {
                Some(Token::Semicolon)
            } else {
                None
            };
            match sym {
                Some(tok) => {
                    let ghost dv = tokens.deep_view();
                    let ghost tokv = tok@;
                    tokens.push(tok);
                    proof {
                        assert(symbol_token(s[i as int]) == Some(tokv));
                        assert(spec_lex_from(s, i as nat) == cons_token(
                            tokv,
                            spec_lex_from(s, i as nat + 1),
                        ));
                        lemma_lex_prepend_cons(dv, tokv, spec_lex_from(s, i as nat + 1));
                        assert(tokens.deep_view() =~= dv.push(tokv));
                    }
                    i += 1;
                },
                None => {
                    return Err(LexError::UnexpectedCharacter { position: i, character: c });
                },
            }
        }
    }
    proof {
        assert(spec_lex_from(s, i as nat) == Ok::<Seq<SpecToken>, SpecLexError>(Seq::empty()));
        assert(tokens.deep_view() + Seq::<SpecToken>::empty() =~= tokens.deep_view());
    }
    Ok(tokens)
}

/// `k` opens an integer literal: a digit preceded by no identifier or
/// digit character, so a scan reaches it as the first digit of a number.
/// (A digit inside an identifier, as in `a12`, opens no literal.)
pub open spec fn literal_start(s: Seq<char>, k: int) -> bool {
    0 <= k < s.len() && is_digit_char(s[k]) && (k == 0 || !is_ident_char(s[k - 1]))
}

/// The value of the digit run opening at `k` fits the 64-bit signed range.
pub open spec fn literal_fits(s: Seq<char>, k: int) -> bool {
    digits_val(s.subrange(k, digit_run_end(s, k as nat) as int)) <= i64::MAX as nat
}

proof fn lemma_lex_ok_supported(s: Seq<char>, i: nat)
    requires
        i <= s.len(),
        spec_lex_from(s, i) is Ok,
    ensures
        forall|k: int| i <= k < s.len() ==> supported_char(s[k]),
        forall|k: int| i <= k && literal_start(s, k) ==> literal_fits(s, k),
    decreases s.len() - i,
{
    if i < s.len() {
        let c = s[i as int];
        if is_whitespace_char(c) {
            lemma_lex_ok_supported(s, i + 1);
        } else if is_digit_char(c) {
            lemma_digit_run_end(s, i);
            lemma_digit_run_end(s, i + 1);
            assert(digit_run_end(s, i) == digit_run_end(s, i + 1));
            let j = digit_run_end(s, i);
            lemma_lex_ok_supported(s, j);
            // The run at `i` fits, or the lexer would have failed; any
            // later digit inside the run follows a digit and opens no
            // literal of its own.
            assert(literal_fits(s, i as int));
            assert forall|k: int| i <= k && literal_start(s, k) implies literal_fits(s, k) by {
                if k < j {
                    assert(k == i);
                }
            }
        } else if is_ident_start_char(c) {
            lemma_ident_run_end(s, i);
            lemma_ident_run_end(s, i + 1);
            assert(ident_run_end(s, i) == ident_run_end(s, i + 1));
            let j = ident_run_end(s, i);
            lemma_lex_ok_supported(s, j);
            // Digits inside the identifier run follow identifier
            // characters, so none of them opens a literal.
            assert forall|k: int| i <= k && literal_start(s, k) implies literal_fits(s, k) by {
                if k < j {
                    assert(is_ident_char(s[k - 1]));
                }
            }
        } else {
            lemma_lex_ok_supported(s, i + 1);
        }
    }
}

proof fn lemma_lex_from_ok(s: Seq<char>, i: nat)
    requires
        i <= s.len(),
        forall|k: int| 0 <= k < s.len() ==> supported_char(s[k]),
        forall|k: int| literal_start(s, k) ==> literal_fits(s, k),
        i < s.len() && is_digit_char(s[i as int]) ==> literal_start(s, i as int),
    ensures
        spec_lex_from(s, i) is Ok,
    decreases s.len() - i,
{
    if i < s.len() {
        let c = s[i as int];
        assert(supported_char(c));
        if is_whitespace_char(c) {
            lemma_lex_from_ok(s, i + 1);
        } else if is_digit_char(c) {
            lemma_digit_run_end(s, i);
            lemma_digit_run_end(s, i + 1);
            assert(digit_run_end(s, i) == digit_run_end(s, i + 1));
            let j = digit_run_end(s, i);
            assert(literal_fits(s, i as int));
            lemma_lex_from_ok(s, j);
        } else if is_ident_start_char(c) {
            lemma_ident_run_end(s, i);
            lemma_ident_run_end(s, i + 1);
            assert(ident_run_end(s, i) == ident_run_end(s, i + 1));
            lemma_lex_from_ok(s, ident_run_end(s, i));
        } else {
            lemma_lex_from_ok(s, i + 1);
        }
    }
}

/// Lexical acceptance, exactly: tokenization succeeds if and only if
/// every character of the text is supported and every integer literal in
/// it fits the 64-bit signed range.
pub proof fn lemma_lex_ok_iff(s: Seq<char>)
    ensures
        spec_lex_from(s, 0) is Ok <==> ((forall|k: int|
            0 <= k < s.len() ==> supported_char(s[k])) && (forall|k: int|
            literal_start(s, k) ==> literal_fits(s, k))),
{
    if spec_lex_from(s, 0) is Ok {
        lemma_lex_ok_supported(s, 0);
    }
    if (forall|k: int| 0 <= k < s.len() ==> supported_char(s[k])) && (forall|k: int|
        literal_start(s, k) ==> literal_fits(s, k)) {
        lemma_lex_from_ok(s, 0);
    }
}

/// Lexical rejection: a text holding any character outside the supported
/// set cannot be tokenized; the lexer reports an error for it, so no
/// assembly is ever produced from such a text.
pub proof fn lemma_lex_rejects_unsupported(s: Seq<char>, k: int)
    requires
        0 <= k < s.len(),
        !supported_char(s[k]),
    ensures
        spec_lex_from(s, 0) is Err,
{
    if spec_lex_from(s, 0) is Ok {
        lemma_lex_ok_supported(s, 0);
        assert(supported_char(s[k]));
    }
}

} // verus!
