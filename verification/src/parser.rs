use vstd::prelude::*;

use crate::ast::{Expr, Operator};
use crate::token::{token_eq, SpecToken, Token};

verus! {

/// A grammar violation. Parsing aborts at the first one; there is no
/// error recovery.
#[derive(Debug, PartialEq, Eq)]
pub enum ParseError {
    /// A fixed element of the grammar was missing: the parser wanted
    /// `expected` at token index `position` but saw `found` (`None` at the
    /// end of the input).
    ExpectedToken { expected: Token, found: Option<Token>, position: usize },
    /// No primary expression could start at token index `position`.
    UnexpectedToken { found: Option<Token>, position: usize },
}

/// The mathematical image of a [`ParseError`].
pub enum SpecParseError {
    ExpectedToken { expected: SpecToken, found: Option<SpecToken>, position: nat },
    UnexpectedToken { found: Option<SpecToken>, position: nat },
}

/// The image of an optional token.
pub open spec fn opt_token_view(o: Option<Token>) -> Option<SpecToken> {
    match o {
        Some(t) => Some(t@),
        None => None,
    }
}

impl View for ParseError {
    type V = SpecParseError;

    open spec fn view(&self) -> SpecParseError {
        match self {
            ParseError::ExpectedToken { expected, found, position } => {
                SpecParseError::ExpectedToken {
                    expected: expected@,
                    found: opt_token_view(*found),
                    position: *position as nat,
                }
            },
            ParseError::UnexpectedToken { found, position } => {
                SpecParseError::UnexpectedToken {
                    found: opt_token_view(*found),
                    position: *position as nat,
                }
            },
        }
    }
}

/// The token at index `i`, or `None` past the end.
pub open spec fn spec_token_at(toks: Seq<SpecToken>, i: nat) -> Option<SpecToken> {
    if i < toks.len() {
        Some(toks[i as int])
    } else {
        None
    }
}

/// Match-and-advance: the next position when the token at `i` is the
/// expected one, and the exact error otherwise.
pub open spec fn spec_eat(toks: Seq<SpecToken>, i: nat, expected: SpecToken) -> Result<
    nat,
    SpecParseError,
> {
    if spec_token_at(toks, i) == Some(expected) {
        Ok((i + 1) as nat)
    } else {
        Err(
            SpecParseError::ExpectedToken {
                expected,
                found: spec_token_at(toks, i),
                position: i,
            },
        )
    }
}

/// Keeps a position inside `[lo, hi]`.
///
/// The sub-parsers below only ever return positions that moved forward and
/// stayed within the token sequence, but that fact is a theorem, not part
/// of their definitions. Routing every returned position through this
/// clamp makes it structural, so the mutual recursion visibly terminates;
/// on any position an actual parse produces, the clamp changes nothing.
pub open spec fn clamp_pos(lo: nat, j: nat, hi: nat) -> nat {
    if j < lo {
        lo
    } else if j > hi {
        hi
    } else {
        j
    }
}

/// `Primary := Number | '(' Expr ')'`: a literal leaf, or a parenthesized
/// sub-expression. On success: the expression and the position just past it.
pub open spec fn spec_parse_primary(toks: Seq<SpecToken>, i: nat) -> Result<
    (Expr, nat),
    SpecParseError,
>
    decreases toks.len() - i, 0int,
    when i <= toks.len()
{
    match spec_token_at(toks, i) {
        Some(SpecToken::Number(n)) => Ok((Expr::Number(n), (i + 1) as nat)),
        Some(SpecToken::LParen) => match spec_parse_add_sub(toks, (i + 1) as nat) {
            Ok((e, j)) => match spec_eat(toks, j, SpecToken::RParen) {
                Ok(k) => Ok((e, k)),
                Err(err) => Err(err),
            },
            Err(err) => Err(err),
        },
        _ => Err(
            SpecParseError::UnexpectedToken { found: spec_token_at(toks, i), position: i },
        ),
    }
}

/// `MulDiv := Primary (('*' | '/') Primary)*`, left-associative.
pub open spec fn spec_parse_mul_div(toks: Seq<SpecToken>, i: nat) -> Result<
    (Expr, nat),
    SpecParseError,
>
    decreases toks.len() - i, 2int,
    when i <= toks.len()
{
    match spec_parse_primary(toks, i) {
        Ok((e, j)) => spec_parse_mul_div_rest(toks, clamp_pos(i, j, toks.len()), e),
        Err(err) => Err(err),
    }
}

/// The left-associative loop of `MulDiv`: as long as a `*` or `/` follows,
/// the accumulated expression becomes the left operand of a new node.
pub open spec fn spec_parse_mul_div_rest(toks: Seq<SpecToken>, i: nat, acc: Expr) -> Result<
    (Expr, nat),
    SpecParseError,
>
    decreases toks.len() - i, 1int,
    when i <= toks.len()
{
    let cur = spec_token_at(toks, i);
    if cur == Some(SpecToken::Star) || cur == Some(SpecToken::Slash) {
        let op = if cur == Some(SpecToken::Star) {
            Operator::Star
        } else {
            Operator::Slash
        };
        match spec_parse_primary(toks, (i + 1) as nat) {
            Ok((rhs, k)) => spec_parse_mul_div_rest(
                toks,
                clamp_pos(i + 1, k, toks.len()),
                Expr::BinaryOp { op, left: Box::new(acc), right: Box::new(rhs) },
            ),
            Err(err) => Err(err),
        }
    } else {
        Ok((acc, i))
    }
}

/// `AddSub := MulDiv (('+' | '-') MulDiv)*`, left-associative; this is
/// also the whole of `Expr`, since `+` and `-` bind loosest.
pub open spec fn spec_parse_add_sub(toks: Seq<SpecToken>, i: nat) -> Result<
    (Expr, nat),
    SpecParseError,
>
    decreases toks.len() - i, 4int,
    when i <= toks.len()
{
    match spec_parse_mul_div(toks, i) {
        Ok((e, j)) => spec_parse_add_sub_rest(toks, clamp_pos(i, j, toks.len()), e),
        Err(err) => Err(err),
    }
}

/// The left-associative loop of `AddSub`.
pub open spec fn spec_parse_add_sub_rest(toks: Seq<SpecToken>, i: nat, acc: Expr) -> Result<
    (Expr, nat),
    SpecParseError,
>
    decreases toks.len() - i, 3int,
    when i <= toks.len()
{
    let cur = spec_token_at(toks, i);
    if cur == Some(SpecToken::Plus) || cur == Some(SpecToken::Minus) {
        let op = if cur == Some(SpecToken::Plus) {
            Operator::Plus
        } else {
            Operator::Minus
        };
        match spec_parse_mul_div(toks, (i + 1) as nat) {
            Ok((rhs, k)) => spec_parse_add_sub_rest(
                toks,
                clamp_pos(i + 1, k, toks.len()),
                Expr::BinaryOp { op, left: Box::new(acc), right: Box::new(rhs) },
            ),
            Err(err) => Err(err),
        }
    } else {
        Ok((acc, i))
    }
}

/// The fixed program skeleton, matched as a literal token sequence:
/// `'int' 'main' '(' ')' '{' 'return' Expr ';' '}'`, with nothing after
/// the closing brace: the input is exactly one function, and any token
/// beyond it is rejected. The result is the return expression.
pub open spec fn spec_parse_program(toks: Seq<SpecToken>, i: nat) -> Result<Expr, SpecParseError> {
    match spec_eat(toks, i, SpecToken::Int) {
        Err(err) => Err(err),
        Ok(i1) => match spec_eat(toks, i1, SpecToken::Ident("main"@)) {
            Err(err) => Err(err),
            Ok(i2) => match spec_eat(toks, i2, SpecToken::LParen) {
                Err(err) => Err(err),
                Ok(i3) => match spec_eat(toks, i3, SpecToken::RParen) {
                    Err(err) => Err(err),
                    Ok(i4) => match spec_eat(toks, i4, SpecToken::LBrace) {
                        Err(err) => Err(err),
                        Ok(i5) => match spec_eat(toks, i5, SpecToken::Return) {
                            Err(err) => Err(err),
                            Ok(i6) => match spec_parse_add_sub(toks, i6) {
                                Err(err) => Err(err),
                                Ok((e, j)) => match spec_eat(toks, j, SpecToken::Semicolon) {
                                    Err(err) => Err(err),
                                    Ok(j1) => match spec_eat(toks, j1, SpecToken::RBrace) {
                                        Err(err) => Err(err),
                                        Ok(j2) => if j2 == toks.len() {
                                            Ok(e)
                                        } else {
                                            Err(
                                                SpecParseError::UnexpectedToken {
                                                    found: spec_token_at(toks, j2),
                                                    position: j2,
                                                },
                                            )
                                        },
                                    },
                                },
                            },
                        },
                    },
                },
            },
        },
    }
}

/// Recursive-descent parser over a token sequence, holding a cursor into it.
pub struct Parser {
    tokens: Vec<Token>,
    pos: usize,
}

impl Parser {
    /// The token sequence the parser was built over.
    pub closed spec fn toks(&self) -> Seq<SpecToken> {
        self.tokens.deep_view()
    }

    /// The cursor: the index of the next token to consume.
    pub closed spec fn position(&self) -> nat {
        self.pos as nat
    }

    /// The cursor never leaves the token sequence (one past the last
    /// token at most).
    pub closed spec fn wf(&self) -> bool {
        self.position() <= self.toks().len() && self.toks().len() <= usize::MAX
    }

    /// Creates a parser positioned at the first token.
    pub fn new(tokens: Vec<Token>) -> (p: Parser)
        ensures
            p.toks() == tokens.deep_view(),
            p.position() == 0,
            p.wf(),
    {
        proof {
            vstd::std_specs::vec::axiom_spec_len(&tokens);
        }
        Parser { tokens, pos: 0 }
    }

    /// The current token, or `None` at the end of the input.
    fn current(&self) -> (r: Option<&Token>)
        ensures
            match r {
                Some(t) => self.position() < self.toks().len() && t@ == self.toks()[
                    self.position() as int
                ],
                None => self.position() >= self.toks().len(),
            },
    {
        if self.pos < self.tokens.len() {
            Some(&self.tokens[self.pos])
        } else {
            None
        }
    }

    /// The current token by value, for error reports.
    fn current_cloned(&self) -> (r: Option<Token>)
        ensures
            opt_token_view(r) == spec_token_at(self.toks(), self.position()),
    {
        match self.current() {
            Some(t) => Some(t.clone()),
            None => None,
        }
    }

    /// Match-and-advance: consumes the current token when it equals the
    /// expected one, and reports which fixed element was missing otherwise.
    fn eat(&mut self, expected: &Token) -> (r: Result<(), ParseError>)
        requires
            old(self).wf(),
        ensures
            final(self).toks() == old(self).toks(),
            final(self).wf(),
            match r {
                Ok(_) => spec_eat(old(self).toks(), old(self).position(), expected@) == Ok::<
                    nat,
                    SpecParseError,
                >(final(self).position()),
                Err(err) => {
                    &&& spec_eat(old(self).toks(), old(self).position(), expected@) == Err::<
                        nat,
                        SpecParseError,
                    >(err@)
                    &&& final(self).position() == old(self).position()
                },
            },
    {
        let matches_expected = match self.current() {
            Some(t) => token_eq(t, expected),
            None => false,
        };
        if matches_expected {
            self.pos += 1;
            Ok(())
        } else {
            Err(
                ParseError::ExpectedToken {
                    expected: expected.clone(),
                    found: self.current_cloned(),
                    position: self.pos,
                },
            )
        }
    }

    /// Parses the full program skeleton `int main() { return <expr>; }`
    /// and yields the return expression. The whole input must be that one
    /// function: a token remaining after the closing brace is an error.
    ///
    /// The result is exactly what [`spec_parse_program`] says for the
    /// parser's token sequence: the same tree, or the same error at the
    /// same position. The cursor only ever moves forward; on success it
    /// stands at the end of the input, every token consumed.
    pub fn parse(&mut self) -> (r: Result<Expr, ParseError>)
        requires
            old(self).wf(),
        ensures
            final(self).toks() == old(self).toks(),
            final(self).wf(),
            old(self).position() <= final(self).position(),
            match r {
                Ok(e) => {
                    &&& spec_parse_program(old(self).toks(), old(self).position()) == Ok::<
                        Expr,
                        SpecParseError,
                    >(e)
                    &&& final(self).position() == old(self).toks().len()
                },
                Err(err) => spec_parse_program(old(self).toks(), old(self).position()) == Err::<
                    Expr,
                    SpecParseError,
                >(err@),
            },
    {
        if let Err(err) = self.eat(&Token::Int) {
            return Err(err);
        }
        if let Err(err) = self.eat(&Token::Ident(String::from_str("main"))) {
            return Err(err);
        }
        if let Err(err) = self.eat(&Token::LParen) {
            return Err(err);
        }
        if let Err(err) = self.eat(&Token::RParen) {
            return Err(err);
        }
        if let Err(err) = self.eat(&Token::LBrace) {
            return Err(err);
        }
        if let Err(err) = self.eat(&Token::Return) {
            return Err(err);
        }
        let expr = match self.parse_expr() {
            Ok(e) => e,
            Err(err) => {
                return Err(err);
            },
        };
        if let Err(err) = self.eat(&Token::Semicolon) {
            return Err(err);
        }
        if let Err(err) = self.eat(&Token::RBrace) {
            return Err(err);
        }
        if self.pos < self.tokens.len() {
            return Err(
                ParseError::UnexpectedToken { found: self.current_cloned(), position: self.pos },
            );
        }
        Ok(expr)
    }

    /// Parses one arithmetic expression; the entry point into the
    /// precedence-climbing pair below.
    fn parse_expr(&mut self) -> (r: Result<Expr, ParseError>)
        requires
            old(self).wf(),
        ensures
            final(self).toks() == old(self).toks(),
            final(self).wf(),
            old(self).position() <= final(self).position(),
            match r {
                Ok(e) => {
                    &&& spec_parse_add_sub(old(self).toks(), old(self).position()) == Ok::<
                        (Expr, nat),
                        SpecParseError,
                    >((e, final(self).position()))
                    &&& old(self).position() < final(self).position()
                },
                Err(err) => spec_parse_add_sub(old(self).toks(), old(self).position()) == Err::<
                    (Expr, nat),
                    SpecParseError,
                >(err@),
            },
        decreases old(self).toks().len() - old(self).position(), 3int,
    {
        self.parse_add_sub()
    }

    /// `AddSub := MulDiv (('+' | '-') MulDiv)*`, left-associative: each
    /// loop iteration wraps the accumulated node as the left child.
    fn parse_add_sub(&mut self) -> (r: Result<Expr, ParseError>)
        requires
            old(self).wf(),
        ensures
            final(self).toks() == old(self).toks(),
            final(self).wf(),
            old(self).position() <= final(self).position(),
            match r {
                Ok(e) => {
                    &&& spec_parse_add_sub(old(self).toks(), old(self).position()) == Ok::<
                        (Expr, nat),
                        SpecParseError,
                    >((e, final(self).position()))
                    &&& old(self).position() < final(self).position()
                },
                Err(err) => spec_parse_add_sub(old(self).toks(), old(self).position()) == Err::<
                    (Expr, nat),
                    SpecParseError,
                >(err@),
            },
        decreases old(self).toks().len() - old(self).position(), 2int,
    {
        let ghost toks = self.toks();
        let ghost p0 = self.position();
        let mut node = match self.parse_mul_div() {
            Ok(e) => e,
            Err(err) => {
                return Err(err);
            },
        };
        loop
            invariant
                toks == old(self).toks(),
                p0 == old(self).position(),
                self.wf(),
                self.toks() == toks,
                p0 < self.position() <= toks.len(),
                spec_parse_add_sub(toks, p0) == spec_parse_add_sub_rest(
                    toks,
                    self.position(),
                    node,
                ),
            ensures
                self.wf(),
                self.toks() == toks,
                p0 < self.position() <= toks.len(),
                spec_parse_add_sub(toks, p0) == Ok::<(Expr, nat), SpecParseError>(
                    (node, self.position()),
                ),
            decreases toks.len() - self.position(),
        {
            let op_opt: Option<Operator> = match self.current() {
                Some(Token::Plus) => Some(Operator::Plus),
                Some(Token::Minus) => Some(Operator::Minus),
                _ => None,
            };
            match op_opt {
                None => {
                    break ;
                },
                Some(op) => {
                    self.pos += 1;
                    let right = match self.parse_mul_div() {
                        Ok(e) => e,
                        Err(err) => {
                            return Err(err);
                        },
                    };
                    node = Expr::BinaryOp { op, left: Box::new(node), right: Box::new(right) };
                },
            }
        }
        Ok(node)
    }

    /// `MulDiv := Primary (('*' | '/') Primary)*`, left-associative.
    fn parse_mul_div(&mut self) -> (r: Result<Expr, ParseError>)
        requires
            old(self).wf(),
        ensures
            final(self).toks() == old(self).toks(),
            final(self).wf(),
            old(self).position() <= final(self).position(),
            match r {
                Ok(e) => {
                    &&& spec_parse_mul_div(old(self).toks(), old(self).position()) == Ok::<
                        (Expr, nat),
                        SpecParseError,
                    >((e, final(self).position()))
                    &&& old(self).position() < final(self).position()
                },
                Err(err) => spec_parse_mul_div(old(self).toks(), old(self).position()) == Err::<
                    (Expr, nat),
                    SpecParseError,
                >(err@),
            },
        decreases old(self).toks().len() - old(self).position(), 1int,
    {
        let ghost toks = self.toks();
        let ghost p0 = self.position();
        let mut node = match self.parse_primary() {
            Ok(e) => e,
            Err(err) => {
                return Err(err);
            },
        };
        loop
            invariant
                toks == old(self).toks(),
                p0 == old(self).position(),
                self.wf(),
                self.toks() == toks,
                p0 < self.position() <= toks.len(),
                spec_parse_mul_div(toks, p0) == spec_parse_mul_div_rest(
                    toks,
                    self.position(),
                    node,
                ),
            ensures
                self.wf(),
                self.toks() == toks,
                p0 < self.position() <= toks.len(),
                spec_parse_mul_div(toks, p0) == Ok::<(Expr, nat), SpecParseError>(
                    (node, self.position()),
                ),
            decreases toks.len() - self.position(),
        {
            let op_opt: Option<Operator> = match self.current() {
                Some(Token::Star) => Some(Operator::Star),
                Some(Token::Slash) => Some(Operator::Slash),
                _ => None,
            };
            match op_opt {
                None => {
                    break ;
                },
                Some(op) => {
                    self.pos += 1;
                    let right = match self.parse_primary() {
                        Ok(e) => e,
                        Err(err) => {
                            return Err(err);
                        },
                    };
                    node = Expr::BinaryOp { op, left: Box::new(node), right: Box::new(right) };
                },
            }
        }
        Ok(node)
    }

    /// `Primary := Number | '(' Expr ')'`: an integer literal, or a
    /// parenthesized sub-expression.
    fn parse_primary(&mut self) -> (r: Result<Expr, ParseError>)
        requires
            old(self).wf(),
        ensures
            final(self).toks() == old(self).toks(),
            final(self).wf(),
            old(self).position() <= final(self).position(),
            match r {
                Ok(e) => {
                    &&& spec_parse_primary(old(self).toks(), old(self).position()) == Ok::<
                        (Expr, nat),
                        SpecParseError,
                    >((e, final(self).position()))
                    &&& old(self).position() < final(self).position()
                },
                Err(err) => {
                    &&& spec_parse_primary(old(self).toks(), old(self).position()) == Err::<
                        (Expr, nat),
                        SpecParseError,
                    >(err@)
                    // When no primary can start here at all, no token is consumed.
                    &&& (spec_token_at(old(self).toks(), old(self).position()) != Some(
                        SpecToken::LParen,
                    ) ==> final(self).position() == old(self).position())
                },
            },
        decreases old(self).toks().len() - old(self).position(), 0int,
    {
        let is_number: Option<i64> = match self.current() {
            Some(Token::Number(n)) => Some(*n),
            _ => None,
        };
        if let Some(value) = is_number {
            self.pos += 1;
            return Ok(Expr::Number(value));
        }
        let is_lparen: bool = match self.current() {
            Some(Token::LParen) => true,
            _ => false,
        };
        if is_lparen {
            self.pos += 1;
            let expr = match self.parse_expr() {
                Ok(e) => e,
                Err(err) => {
                    return Err(err);
                },
            };
            return match self.eat(&Token::RParen) {
                Ok(_) => Ok(expr),
                Err(err) => Err(err),
            };
        }
        Err(ParseError::UnexpectedToken { found: self.current_cloned(), position: self.pos })
    }
}

} // verus!
