//! The parser: recursive descent over the token sequence, one token of
//! lookahead, no backtracking.
//!
//! The `p_*` spec functions are the mathematical parser; the executable
//! functions mirror them one for one and are proved to return exactly what
//! the model returns. Both take a fuel bound that falls by one at each
//! nested parsing step; [`parse`] starts from a bound so large that no
//! input that fits in memory can exhaust it, but its exhaustion is still an
//! explicit error rather than unbounded recursion.
//!
//! Grammar quirks that are part of the language, not defects: all binary
//! operators of the "simple" tier (`+ - * / % < > <= >= == != =`) share one
//! flat, left-associative precedence level; the bare `=` and `!=` also act
//! one level below it; unary `-` and `!` consume the whole trailing
//! expression; the token cursor saturates at end of input.

use vstd::prelude::*;

use crate::ast::{view_ast, view_asts, ASTNode, Ast};
use crate::token::{Tok, Token};

verus! {

/// A parse error: at some consumption point the parser saw a token other
/// than what the grammar demands there. Each variant carries the offending
/// token; `ExpectedToken` also carries the token that was demanded.
/// `RecursionLimit` reports an input nested so deeply that the parser's
/// step bound ran out.
#[derive(Debug, PartialEq)]
pub enum ParseError {
    ExpectedStatement(Token),
    ExpectedIdentifier(Token),
    ExpectedToken(Token, Token),
    ExpectedFactor(Token),
    ExpectedAssignOp(Token),
    RecursionLimit,
}

/// The model of a [`ParseError`], short of the recursion limit.
pub ghost enum PErr {
    ExpectedStatement(Tok),
    ExpectedIdentifier(Tok),
    ExpectedToken(Tok, Tok),
    ExpectedFactor(Tok),
    ExpectedAssignOp(Tok),
}

/// The model of a [`ParseError`]; the recursion limit stands outside the
/// model, which tracks it as running out of fuel instead.
pub open spec fn perr_view(e: ParseError) -> Option<PErr> {
    match e {
        ParseError::ExpectedStatement(t) => Some(PErr::ExpectedStatement(t@)),
        ParseError::ExpectedIdentifier(t) => Some(PErr::ExpectedIdentifier(t@)),
        ParseError::ExpectedToken(w, t) => Some(PErr::ExpectedToken(w@, t@)),
        ParseError::ExpectedFactor(t) => Some(PErr::ExpectedFactor(t@)),
        ParseError::ExpectedAssignOp(t) => Some(PErr::ExpectedAssignOp(t@)),
        ParseError::RecursionLimit => None,
    }
}

/// The outcome of one parsing step in the model: a parsed value together
/// with the next token position, a parse error, or fuel exhaustion.
pub ghost enum PStep<A> {
    Parsed(A, nat),
    Failed(PErr),
    OutOfFuel,
}

/// The token at position `i`; past the end, the cursor saturates at
/// end-of-input.
pub open spec fn tok_at(toks: Seq<Tok>, i: nat) -> Tok {
    if i < toks.len() {
        toks[i as int]
    } else {
        Tok::EndOfFile
    }
}

/// The operators of the flat "simple" tier.
pub open spec fn is_simple_op(t: Tok) -> bool {
    ||| t == Tok::Plus
    ||| t == Tok::Minus
    ||| t == Tok::Asterisk
    ||| t == Tok::Slash
    ||| t == Tok::Percent
    ||| t == Tok::LessThan
    ||| t == Tok::GreaterThan
    ||| t == Tok::LessThanEquals
    ||| t == Tok::GreaterThanEquals
    ||| t == Tok::EqualEqual
    ||| t == Tok::NotEqual
    ||| t == Tok::Equals
}

/// The operators consumed at the term tier: the bare `=` comparison and
/// `!=`.
pub open spec fn is_term_op(t: Tok) -> bool {
    t == Tok::Equals || t == Tok::NotEqual
}

/// The operators of the expression tier: `&&` and `||`.
pub open spec fn is_expr_op(t: Tok) -> bool {
    t == Tok::And || t == Tok::Or
}

/// One statement of the model grammar.
pub open spec fn p_stmt(toks: Seq<Tok>, i: nat, fuel: nat) -> PStep<Ast>
    decreases fuel,
{
    if fuel == 0 {
        PStep::OutOfFuel
    } else {
        match tok_at(toks, i) {
            Tok::V => p_var_decl(toks, i, (fuel - 1) as nat),
            Tok::W => p_while(toks, i, (fuel - 1) as nat),
            Tok::I => p_if(toks, i, (fuel - 1) as nat),
            Tok::F => p_func_decl(toks, i, (fuel - 1) as nat),
            Tok::Print => p_print(toks, i, (fuel - 1) as nat),
            Tok::Identifier(_) => p_assign(toks, i, (fuel - 1) as nat),
            t => PStep::Failed(PErr::ExpectedStatement(t)),
        }
    }
}

/// `v name = expression`.
pub open spec fn p_var_decl(toks: Seq<Tok>, i: nat, fuel: nat) -> PStep<Ast>
    decreases fuel,
{
    if fuel == 0 {
        PStep::OutOfFuel
    } else if tok_at(toks, i) != Tok::V {
        PStep::Failed(PErr::ExpectedToken(Tok::V, tok_at(toks, i)))
    } else {
        match tok_at(toks, i + 1) {
            Tok::Identifier(name) => {
                if tok_at(toks, i + 2) != Tok::Equals {
                    PStep::Failed(PErr::ExpectedToken(Tok::Equals, tok_at(toks, i + 2)))
                } else {
                    match p_expr(toks, i + 3, (fuel - 1) as nat) {
                        PStep::Parsed(e, j) => PStep::Parsed(
                            Ast::VariableDeclaration(name, Box::new(e)),
                            j,
                        ),
                        PStep::Failed(err) => PStep::Failed(err),
                        PStep::OutOfFuel => PStep::OutOfFuel,
                    }
                }
            },
            t => PStep::Failed(PErr::ExpectedIdentifier(t)),
        }
    }
}

/// `w expression { statements }`.
pub open spec fn p_while(toks: Seq<Tok>, i: nat, fuel: nat) -> PStep<Ast>
    decreases fuel,
{
    if fuel == 0 {
        PStep::OutOfFuel
    } else if tok_at(toks, i) != Tok::W {
        PStep::Failed(PErr::ExpectedToken(Tok::W, tok_at(toks, i)))
    } else {
        match p_expr(toks, i + 1, (fuel - 1) as nat) {
            PStep::Parsed(cond, j) => {
                if tok_at(toks, j) != Tok::LeftBrace {
                    PStep::Failed(PErr::ExpectedToken(Tok::LeftBrace, tok_at(toks, j)))
                } else {
                    match p_stmt_list(toks, j + 1, Tok::RightBrace, (fuel - 1) as nat) {
                        PStep::Parsed(body, k) => {
                            if tok_at(toks, k) != Tok::RightBrace {
                                PStep::Failed(PErr::ExpectedToken(Tok::RightBrace, tok_at(toks, k)))
                            } else {
                                PStep::Parsed(Ast::While(Box::new(cond), body), k + 1)
                            }
                        },
                        PStep::Failed(err) => PStep::Failed(err),
                        PStep::OutOfFuel => PStep::OutOfFuel,
                    }
                }
            },
            PStep::Failed(err) => PStep::Failed(err),
            PStep::OutOfFuel => PStep::OutOfFuel,
        }
    }
}

/// `i expression { statements }` (no else branch).
pub open spec fn p_if(toks: Seq<Tok>, i: nat, fuel: nat) -> PStep<Ast>
    decreases fuel,
{
    if fuel == 0 {
        PStep::OutOfFuel
    } else if tok_at(toks, i) != Tok::I {
        PStep::Failed(PErr::ExpectedToken(Tok::I, tok_at(toks, i)))
    } else {
        match p_expr(toks, i + 1, (fuel - 1) as nat) {
            PStep::Parsed(cond, j) => {
                if tok_at(toks, j) != Tok::LeftBrace {
                    PStep::Failed(PErr::ExpectedToken(Tok::LeftBrace, tok_at(toks, j)))
                } else {
                    match p_stmt_list(toks, j + 1, Tok::RightBrace, (fuel - 1) as nat) {
                        PStep::Parsed(body, k) => {
                            if tok_at(toks, k) != Tok::RightBrace {
                                PStep::Failed(PErr::ExpectedToken(Tok::RightBrace, tok_at(toks, k)))
                            } else {
                                PStep::Parsed(Ast::If(Box::new(cond), body), k + 1)
                            }
                        },
                        PStep::Failed(err) => PStep::Failed(err),
                        PStep::OutOfFuel => PStep::OutOfFuel,
                    }
                }
            },
            PStep::Failed(err) => PStep::Failed(err),
            PStep::OutOfFuel => PStep::OutOfFuel,
        }
    }
}

/// `f name { statements }`.
pub open spec fn p_func_decl(toks: Seq<Tok>, i: nat, fuel: nat) -> PStep<Ast>
    decreases fuel,
{
    if fuel == 0 {
        PStep::OutOfFuel
    } else if tok_at(toks, i) != Tok::F {
        PStep::Failed(PErr::ExpectedToken(Tok::F, tok_at(toks, i)))
    } else {
        match tok_at(toks, i + 1) {
            Tok::Identifier(name) => {
                if tok_at(toks, i + 2) != Tok::LeftBrace {
                    PStep::Failed(PErr::ExpectedToken(Tok::LeftBrace, tok_at(toks, i + 2)))
                } else {
                    match p_stmt_list(toks, i + 3, Tok::RightBrace, (fuel - 1) as nat) {
                        PStep::Parsed(body, k) => {
                            if tok_at(toks, k) != Tok::RightBrace {
                                PStep::Failed(PErr::ExpectedToken(Tok::RightBrace, tok_at(toks, k)))
                            } else {
                                PStep::Parsed(Ast::FunctionDeclaration(name, body), k + 1)
                            }
                        },
                        PStep::Failed(err) => PStep::Failed(err),
                        PStep::OutOfFuel => PStep::OutOfFuel,
                    }
                }
            },
            t => PStep::Failed(PErr::ExpectedIdentifier(t)),
        }
    }
}

/// `p expression`.
pub open spec fn p_print(toks: Seq<Tok>, i: nat, fuel: nat) -> PStep<Ast>
    decreases fuel,
{
    if fuel == 0 {
        PStep::OutOfFuel
    } else if tok_at(toks, i) != Tok::Print {
        PStep::Failed(PErr::ExpectedToken(Tok::Print, tok_at(toks, i)))
    } else {
        match p_expr(toks, i + 1, (fuel - 1) as nat) {
            PStep::Parsed(e, j) => PStep::Parsed(Ast::Print(Box::new(e)), j),
            PStep::Failed(err) => PStep::Failed(err),
            PStep::OutOfFuel => PStep::OutOfFuel,
        }
    }
}

/// `name = expression`, or the zero-argument call `name !`.
pub open spec fn p_assign(toks: Seq<Tok>, i: nat, fuel: nat) -> PStep<Ast>
    decreases fuel,
{
    if fuel == 0 {
        PStep::OutOfFuel
    } else {
        match tok_at(toks, i) {
            Tok::Identifier(name) => {
                if tok_at(toks, i + 1) == Tok::Equals {
                    match p_expr(toks, i + 2, (fuel - 1) as nat) {
                        PStep::Parsed(e, j) => PStep::Parsed(
                            Ast::VariableAssignment(name, Box::new(e)),
                            j,
                        ),
                        PStep::Failed(err) => PStep::Failed(err),
                        PStep::OutOfFuel => PStep::OutOfFuel,
                    }
                } else if tok_at(toks, i + 1) == Tok::Bang {
                    PStep::Parsed(Ast::FunctionCall(name), i + 2)
                } else {
                    PStep::Failed(PErr::ExpectedAssignOp(tok_at(toks, i + 1)))
                }
            },
            t => PStep::Failed(PErr::ExpectedIdentifier(t)),
        }
    }
}

/// An expression: simple expressions joined by `&&` or `||`,
/// left-associatively.
pub open spec fn p_expr(toks: Seq<Tok>, i: nat, fuel: nat) -> PStep<Ast>
    decreases fuel,
{
    if fuel == 0 {
        PStep::OutOfFuel
    } else {
        match p_simple(toks, i, (fuel - 1) as nat) {
            PStep::Parsed(left, j) => p_expr_tail(left, toks, j, (fuel - 1) as nat),
            PStep::Failed(err) => PStep::Failed(err),
            PStep::OutOfFuel => PStep::OutOfFuel,
        }
    }
}

/// The left-associative tail of an expression.
pub open spec fn p_expr_tail(left: Ast, toks: Seq<Tok>, i: nat, fuel: nat) -> PStep<Ast>
    decreases fuel,
{
    if fuel == 0 {
        PStep::OutOfFuel
    } else {
        let t = tok_at(toks, i);
        if is_expr_op(t) {
            match p_simple(toks, i + 1, (fuel - 1) as nat) {
                PStep::Parsed(right, j) => p_expr_tail(
                    Ast::Binary(Box::new(left), t, Box::new(right)),
                    toks,
                    j,
                    (fuel - 1) as nat,
                ),
                PStep::Failed(err) => PStep::Failed(err),
                PStep::OutOfFuel => PStep::OutOfFuel,
            }
        } else {
            PStep::Parsed(left, i)
        }
    }
}

/// A simple expression: terms joined by the flat operator tier,
/// left-associatively.
pub open spec fn p_simple(toks: Seq<Tok>, i: nat, fuel: nat) -> PStep<Ast>
    decreases fuel,
{
    if fuel == 0 {
        PStep::OutOfFuel
    } else {
        match p_term(toks, i, (fuel - 1) as nat) {
            PStep::Parsed(left, j) => p_simple_tail(left, toks, j, (fuel - 1) as nat),
            PStep::Failed(err) => PStep::Failed(err),
            PStep::OutOfFuel => PStep::OutOfFuel,
        }
    }
}

/// The left-associative tail of a simple expression.
pub open spec fn p_simple_tail(left: Ast, toks: Seq<Tok>, i: nat, fuel: nat) -> PStep<Ast>
    decreases fuel,
{
    if fuel == 0 {
        PStep::OutOfFuel
    } else {
        let t = tok_at(toks, i);
        if is_simple_op(t) {
            match p_term(toks, i + 1, (fuel - 1) as nat) {
                PStep::Parsed(right, j) => p_simple_tail(
                    Ast::Binary(Box::new(left), t, Box::new(right)),
                    toks,
                    j,
                    (fuel - 1) as nat,
                ),
                PStep::Failed(err) => PStep::Failed(err),
                PStep::OutOfFuel => PStep::OutOfFuel,
            }
        } else {
            PStep::Parsed(left, i)
        }
    }
}

/// A term: factors joined by `=` or `!=`, left-associatively.
pub open spec fn p_term(toks: Seq<Tok>, i: nat, fuel: nat) -> PStep<Ast>
    decreases fuel,
{
    if fuel == 0 {
        PStep::OutOfFuel
    } else {
        match p_factor(toks, i, (fuel - 1) as nat) {
            PStep::Parsed(left, j) => p_term_tail(left, toks, j, (fuel - 1) as nat),
            PStep::Failed(err) => PStep::Failed(err),
            PStep::OutOfFuel => PStep::OutOfFuel,
        }
    }
}

/// The left-associative tail of a term.
pub open spec fn p_term_tail(left: Ast, toks: Seq<Tok>, i: nat, fuel: nat) -> PStep<Ast>
    decreases fuel,
{
    if fuel == 0 {
        PStep::OutOfFuel
    } else {
        let t = tok_at(toks, i);
        if is_term_op(t) {
            match p_factor(toks, i + 1, (fuel - 1) as nat) {
                PStep::Parsed(right, j) => p_term_tail(
                    Ast::Binary(Box::new(left), t, Box::new(right)),
                    toks,
                    j,
                    (fuel - 1) as nat,
                ),
                PStep::Failed(err) => PStep::Failed(err),
                PStep::OutOfFuel => PStep::OutOfFuel,
            }
        } else {
            PStep::Parsed(left, i)
        }
    }
}

/// A factor: a literal, an identifier, a parenthesised expression, or a
/// unary `-` or `!` applied to a whole trailing expression.
pub open spec fn p_factor(toks: Seq<Tok>, i: nat, fuel: nat) -> PStep<Ast>
    decreases fuel,
{
    if fuel == 0 {
        PStep::OutOfFuel
    } else {
        match tok_at(toks, i) {
            Tok::Number(v) => PStep::Parsed(Ast::Number(v), i + 1),
            Tok::StrLit(s) => PStep::Parsed(Ast::Str(s), i + 1),
            Tok::Boolean(b) => PStep::Parsed(Ast::Boolean(b), i + 1),
            Tok::Identifier(name) => PStep::Parsed(Ast::Identifier(name), i + 1),
            Tok::LeftParen => match p_expr(toks, i + 1, (fuel - 1) as nat) {
                PStep::Parsed(e, j) => {
                    if tok_at(toks, j) != Tok::RightParen {
                        PStep::Failed(PErr::ExpectedToken(Tok::RightParen, tok_at(toks, j)))
                    } else {
                        PStep::Parsed(e, j + 1)
                    }
                },
                PStep::Failed(err) => PStep::Failed(err),
                PStep::OutOfFuel => PStep::OutOfFuel,
            },
            Tok::Minus => match p_expr(toks, i + 1, (fuel - 1) as nat) {
                PStep::Parsed(e, j) => PStep::Parsed(Ast::Unary(Tok::Minus, Box::new(e)), j),
                PStep::Failed(err) => PStep::Failed(err),
                PStep::OutOfFuel => PStep::OutOfFuel,
            },
            Tok::Bang => match p_expr(toks, i + 1, (fuel - 1) as nat) {
                PStep::Parsed(e, j) => PStep::Parsed(Ast::Unary(Tok::Bang, Box::new(e)), j),
                PStep::Failed(err) => PStep::Failed(err),
                PStep::OutOfFuel => PStep::OutOfFuel,
            },
            t => PStep::Failed(PErr::ExpectedFactor(t)),
        }
    }
}

/// Statements up to (not including) the `stop` token.
pub open spec fn p_stmt_list(toks: Seq<Tok>, i: nat, stop: Tok, fuel: nat) -> PStep<Seq<Ast>>
    decreases fuel,
{
    if fuel == 0 {
        PStep::OutOfFuel
    } else if tok_at(toks, i) == stop {
        PStep::Parsed(Seq::empty(), i)
    } else {
        match p_stmt(toks, i, (fuel - 1) as nat) {
            PStep::Parsed(st, j) => match p_stmt_list(toks, j, stop, (fuel - 1) as nat) {
                PStep::Parsed(rest, k) => PStep::Parsed(seq![st] + rest, k),
                PStep::Failed(err) => PStep::Failed(err),
                PStep::OutOfFuel => PStep::OutOfFuel,
            },
            PStep::Failed(err) => PStep::Failed(err),
            PStep::OutOfFuel => PStep::OutOfFuel,
        }
    }
}

/// A whole program: statements up to end-of-input.
pub open spec fn spec_parse(toks: Seq<Tok>, fuel: nat) -> PStep<Ast> {
    match p_stmt_list(toks, 0, Tok::EndOfFile, fuel) {
        PStep::Parsed(stmts, j) => PStep::Parsed(Ast::Program(stmts), j),
        PStep::Failed(err) => PStep::Failed(err),
        PStep::OutOfFuel => PStep::OutOfFuel,
    }
}

/// The executable outcome `r` is exactly what the model step `s` demands.
pub open spec fn step_matches(r: Result<(ASTNode, usize), ParseError>, s: PStep<Ast>) -> bool {
    match s {
        PStep::Parsed(a, j) => r matches Ok((node, jj)) && view_ast(node) == a && jj as nat == j,
        PStep::Failed(e) => r matches Err(pe) && perr_view(pe) == Some(e),
        PStep::OutOfFuel => r matches Err(pe) && pe is RecursionLimit,
    }
}

/// The executable outcome `r` is exactly what the model step `s` demands,
/// for a statement list.
pub open spec fn steps_matches(
    r: Result<(Vec<ASTNode>, usize), ParseError>,
    s: PStep<Seq<Ast>>,
) -> bool {
    match s {
        PStep::Parsed(list, j) => r matches Ok((nodes, jj)) && view_asts(nodes@) == list && jj
            as nat == j,
        PStep::Failed(e) => r matches Err(pe) && perr_view(pe) == Some(e),
        PStep::OutOfFuel => r matches Err(pe) && pe is RecursionLimit,
    }
}

/// Prepends already-parsed statements to a statement-list step.
pub open spec fn prepend_stmts(pre: Seq<Ast>, s: PStep<Seq<Ast>>) -> PStep<Seq<Ast>> {
    match s {
        PStep::Parsed(rest, k) => PStep::Parsed(pre + rest, k),
        PStep::Failed(err) => PStep::Failed(err),
        PStep::OutOfFuel => PStep::OutOfFuel,
    }
}

proof fn lemma_prepend_stmts_assoc(pre: Seq<Ast>, st: Ast, s: PStep<Seq<Ast>>)
    ensures
        prepend_stmts(pre, prepend_stmts(seq![st], s)) == prepend_stmts(pre.push(st), s),
{
    match s {
        PStep::Parsed(rest, k) => {
            assert(pre + (seq![st] + rest) =~= pre.push(st) + rest);
        },
        _ => {},
    }
}

/// The current token, cloned; past the end the cursor saturates at
/// end-of-input.
fn cur(toks: &Vec<Token>, i: usize) -> (t: Token)
    ensures
        t@ == tok_at(toks.deep_view(), i as nat),
        toks.deep_view().len() <= usize::MAX,
{
    if i < toks.len() {
        toks[i].clone()
    } else {
        Token::EndOfFile
    }
}

/// One statement.
fn parse_statement(toks: &Vec<Token>, i: usize, fuel: u64) -> (r: Result<(ASTNode, usize), ParseError>)
    ensures
        step_matches(r, p_stmt(toks.deep_view(), i as nat, fuel as nat)),
    decreases fuel,
{
    if fuel == 0 {
        return Err(ParseError::RecursionLimit);
    }
    let t = cur(toks, i);
    match t {
        Token::V => parse_variable_declaration(toks, i, fuel - 1),
        Token::W => parse_while(toks, i, fuel - 1),
        Token::I => parse_if(toks, i, fuel - 1),
        Token::F => parse_function_declaration(toks, i, fuel - 1),
        Token::Print => parse_print(toks, i, fuel - 1),
        Token::Identifier(_) => parse_assignment(toks, i, fuel - 1),
        _ => Err(ParseError::ExpectedStatement(t)),
    }
}

/// `v name = expression`.
fn parse_variable_declaration(toks: &Vec<Token>, i: usize, fuel: u64) -> (r: Result<
    (ASTNode, usize),
    ParseError,
>)
    ensures
        step_matches(r, p_var_decl(toks.deep_view(), i as nat, fuel as nat)),
    decreases fuel,
{
    if fuel == 0 {
        return Err(ParseError::RecursionLimit);
    }
    let t = cur(toks, i);
    if !matches!(t, Token::V) {
        return Err(ParseError::ExpectedToken(Token::V, t));
    }
    assert(i < toks.deep_view().len());
    let name = match cur(toks, i + 1) {
        Token::Identifier(name) => name,
        t2 => {
            return Err(ParseError::ExpectedIdentifier(t2));
        },
    };
    assert(i + 1 < toks.deep_view().len());
    let t3 = cur(toks, i + 2);
    if !matches!(t3, Token::Equals) {
        return Err(ParseError::ExpectedToken(Token::Equals, t3));
    }
    assert(i + 2 < toks.deep_view().len());
    match parse_expression(toks, i + 3, fuel - 1) {
        Ok((e, j)) => Ok((ASTNode::VariableDeclaration(name, Box::new(e)), j)),
        Err(err) => Err(err),
    }
}

/// `w expression { statements }`.
fn parse_while(toks: &Vec<Token>, i: usize, fuel: u64) -> (r: Result<(ASTNode, usize), ParseError>)
    ensures
        step_matches(r, p_while(toks.deep_view(), i as nat, fuel as nat)),
    decreases fuel,
{
    if fuel == 0 {
        return Err(ParseError::RecursionLimit);
    }
    let t = cur(toks, i);
    if !matches!(t, Token::W) {
        return Err(ParseError::ExpectedToken(Token::W, t));
    }
    assert(i < toks.deep_view().len());
    let (cond, j) = match parse_expression(toks, i + 1, fuel - 1) {
        Ok(p) => p,
        Err(err) => {
            return Err(err);
        },
    };
    let tb = cur(toks, j);
    if !matches!(tb, Token::LeftBrace) {
        return Err(ParseError::ExpectedToken(Token::LeftBrace, tb));
    }
    assert(j < toks.deep_view().len());
    let (body, k) = match parse_statement_list(toks, j + 1, true, fuel - 1) {
        Ok(p) => p,
        Err(err) => {
            return Err(err);
        },
    };
    let tc = cur(toks, k);
    if !matches!(tc, Token::RightBrace) {
        return Err(ParseError::ExpectedToken(Token::RightBrace, tc));
    }
    assert(k < toks.deep_view().len());
    Ok((ASTNode::While(Box::new(cond), body), k + 1))
}

/// `i expression { statements }`.
fn parse_if(toks: &Vec<Token>, i: usize, fuel: u64) -> (r: Result<(ASTNode, usize), ParseError>)
    ensures
        step_matches(r, p_if(toks.deep_view(), i as nat, fuel as nat)),
    decreases fuel,
{
    if fuel == 0 {
        return Err(ParseError::RecursionLimit);
    }
    let t = cur(toks, i);
    if !matches!(t, Token::I) {
        return Err(ParseError::ExpectedToken(Token::I, t));
    }
    assert(i < toks.deep_view().len());
    let (cond, j) = match parse_expression(toks, i + 1, fuel - 1) {
        Ok(p) => p,
        Err(err) => {
            return Err(err);
        },
    };
    let tb = cur(toks, j);
    if !matches!(tb, Token::LeftBrace) {
        return Err(ParseError::ExpectedToken(Token::LeftBrace, tb));
    }
    assert(j < toks.deep_view().len());
    let (body, k) = match parse_statement_list(toks, j + 1, true, fuel - 1) {
        Ok(p) => p,
        Err(err) => {
            return Err(err);
        },
    };
    let tc = cur(toks, k);
    if !matches!(tc, Token::RightBrace) {
        return Err(ParseError::ExpectedToken(Token::RightBrace, tc));
    }
    assert(k < toks.deep_view().len());
    Ok((ASTNode::If(Box::new(cond), body), k + 1))
}

/// `f name { statements }`.
fn parse_function_declaration(toks: &Vec<Token>, i: usize, fuel: u64) -> (r: Result<
    (ASTNode, usize),
    ParseError,
>)
    ensures
        step_matches(r, p_func_decl(toks.deep_view(), i as nat, fuel as nat)),
    decreases fuel,
{
    if fuel == 0 {
        return Err(ParseError::RecursionLimit);
    }
    let t = cur(toks, i);
    if !matches!(t, Token::F) {
        return Err(ParseError::ExpectedToken(Token::F, t));
    }
    assert(i < toks.deep_view().len());
    let name = match cur(toks, i + 1) {
        Token::Identifier(name) => name,
        t2 => {
            return Err(ParseError::ExpectedIdentifier(t2));
        },
    };
    assert(i + 1 < toks.deep_view().len());
    let t3 = cur(toks, i + 2);
    if !matches!(t3, Token::LeftBrace) {
        return Err(ParseError::ExpectedToken(Token::LeftBrace, t3));
    }
    assert(i + 2 < toks.deep_view().len());
    let (body, k) = match parse_statement_list(toks, i + 3, true, fuel - 1) {
        Ok(p) => p,
        Err(err) => {
            return Err(err);
        },
    };
    let tc = cur(toks, k);
    if !matches!(tc, Token::RightBrace) {
        return Err(ParseError::ExpectedToken(Token::RightBrace, tc));
    }
    assert(k < toks.deep_view().len());
    Ok((ASTNode::FunctionDeclaration(name, body), k + 1))
}

/// `p expression`.
fn parse_print(toks: &Vec<Token>, i: usize, fuel: u64) -> (r: Result<(ASTNode, usize), ParseError>)
    ensures
        step_matches(r, p_print(toks.deep_view(), i as nat, fuel as nat)),
    decreases fuel,
{
    if fuel == 0 {
        return Err(ParseError::RecursionLimit);
    }
    let t = cur(toks, i);
    if !matches!(t, Token::Print) {
        return Err(ParseError::ExpectedToken(Token::Print, t));
    }
    assert(i < toks.deep_view().len());
    match parse_expression(toks, i + 1, fuel - 1) {
        Ok((e, j)) => Ok((ASTNode::Print(Box::new(e)), j)),
        Err(err) => Err(err),
    }
}

/// `name = expression`, or the zero-argument call `name !`.
fn parse_assignment(toks: &Vec<Token>, i: usize, fuel: u64) -> (r: Result<(ASTNode, usize), ParseError>)
    ensures
        step_matches(r, p_assign(toks.deep_view(), i as nat, fuel as nat)),
    decreases fuel,
{
    if fuel == 0 {
        return Err(ParseError::RecursionLimit);
    }
    let name = match cur(toks, i) {
        Token::Identifier(name) => name,
        t => {
            return Err(ParseError::ExpectedIdentifier(t));
        },
    };
    assert(i < toks.deep_view().len());
    let t2 = cur(toks, i + 1);
    if matches!(t2, Token::Equals) {
        assert(i + 1 < toks.deep_view().len());
        match parse_expression(toks, i + 2, fuel - 1) {
            Ok((e, j)) => Ok((ASTNode::VariableAssignment(name, Box::new(e)), j)),
            Err(err) => Err(err),
        }
    } else if matches!(t2, Token::Bang) {
        assert(i + 1 < toks.deep_view().len());
        Ok((ASTNode::FunctionCall(name), i + 2))
    } else {
        Err(ParseError::ExpectedAssignOp(t2))
    }
}

/// An expression: simple expressions joined by `&&` or `||`.
fn parse_expression(toks: &Vec<Token>, i: usize, fuel: u64) -> (r: Result<(ASTNode, usize), ParseError>)
    ensures
        step_matches(r, p_expr(toks.deep_view(), i as nat, fuel as nat)),
    decreases fuel,
{
    if fuel == 0 {
        return Err(ParseError::RecursionLimit);
    }
    let ghost tv = toks.deep_view();
    let (mut left, mut j) = match parse_simple_expression(toks, i, fuel - 1) {
        Ok(p) => p,
        Err(err) => {
            return Err(err);
        },
    };
    let mut f = fuel - 1;
    loop
        invariant
            tv == toks.deep_view(),
            f <= fuel,
            p_expr(tv, i as nat, fuel as nat) == p_expr_tail(view_ast(left), tv, j as nat, f as nat),
        decreases f,
    {
        if f == 0 {
            return Err(ParseError::RecursionLimit);
        }
        let t = cur(toks, j);
        let is_op = matches!(t, Token::And | Token::Or);
        if !is_op {
            return Ok((left, j));
        }
        assert(j < tv.len());
        let (right, j2) = match parse_simple_expression(toks, j + 1, f - 1) {
            Ok(p) => p,
            Err(err) => {
                return Err(err);
            },
        };
        left = ASTNode::Binary(Box::new(left), t, Box::new(right));
        j = j2;
        f = f - 1;
    }
}

/// A simple expression: terms joined by the flat operator tier.
fn parse_simple_expression(toks: &Vec<Token>, i: usize, fuel: u64) -> (r: Result<(ASTNode, usize), ParseError>)
    ensures
        step_matches(r, p_simple(toks.deep_view(), i as nat, fuel as nat)),
    decreases fuel,
{
    if fuel == 0 {
        return Err(ParseError::RecursionLimit);
    }
    let ghost tv = toks.deep_view();
    let (mut left, mut j) = match parse_term(toks, i, fuel - 1) {
        Ok(p) => p,
        Err(err) => {
            return Err(err);
        },
    };
    let mut f = fuel - 1;
    loop
        invariant
            tv == toks.deep_view(),
            f <= fuel,
            p_simple(tv, i as nat, fuel as nat) == p_simple_tail(
                view_ast(left),
                tv,
                j as nat,
                f as nat,
            ),
        decreases f,
    {
        if f == 0 {
            return Err(ParseError::RecursionLimit);
        }
        let t = cur(toks, j);
        let is_op = matches!(
            t,
            Token::Plus | Token::Minus | Token::Asterisk | Token::Slash | Token::Percent
                | Token::LessThan | Token::GreaterThan | Token::LessThanEquals
                | Token::GreaterThanEquals | Token::EqualEqual | Token::NotEqual | Token::Equals
        );
        if !is_op {
            return Ok((left, j));
        }
        assert(j < tv.len());
        let (right, j2) = match parse_term(toks, j + 1, f - 1) {
            Ok(p) => p,
            Err(err) => {
                return Err(err);
            },
        };
        left = ASTNode::Binary(Box::new(left), t, Box::new(right));
        j = j2;
        f = f - 1;
    }
}

/// A term: factors joined by `=` or `!=`.
fn parse_term(toks: &Vec<Token>, i: usize, fuel: u64) -> (r: Result<(ASTNode, usize), ParseError>)
    ensures
        step_matches(r, p_term(toks.deep_view(), i as nat, fuel as nat)),
    decreases fuel,
{
    if fuel == 0 {
        return Err(ParseError::RecursionLimit);
    }
    let ghost tv = toks.deep_view();
    let (mut left, mut j) = match parse_factor(toks, i, fuel - 1) {
        Ok(p) => p,
        Err(err) => {
            return Err(err);
        },
    };
    let mut f = fuel - 1;
    loop
        invariant
            tv == toks.deep_view(),
            f <= fuel,
            p_term(tv, i as nat, fuel as nat) == p_term_tail(view_ast(left), tv, j as nat, f as nat),
        decreases f,
    {
        if f == 0 {
            return Err(ParseError::RecursionLimit);
        }
        let t = cur(toks, j);
        let is_op = matches!(t, Token::Equals | Token::NotEqual);
        if !is_op {
            return Ok((left, j));
        }
        assert(j < tv.len());
        let (right, j2) = match parse_factor(toks, j + 1, f - 1) {
            Ok(p) => p,
            Err(err) => {
                return Err(err);
            },
        };
        left = ASTNode::Binary(Box::new(left), t, Box::new(right));
        j = j2;
        f = f - 1;
    }
}

/// A factor.
fn parse_factor(toks: &Vec<Token>, i: usize, fuel: u64) -> (r: Result<(ASTNode, usize), ParseError>)
    ensures
        step_matches(r, p_factor(toks.deep_view(), i as nat, fuel as nat)),
    decreases fuel,
{
    if fuel == 0 {
        return Err(ParseError::RecursionLimit);
    }
    let t = cur(toks, i);
    match t {
        Token::Number(v) => {
            assert(i < toks.deep_view().len());
            Ok((ASTNode::Number(v), i + 1))
        },
        Token::String(s) => {
            assert(i < toks.deep_view().len());
            Ok((ASTNode::String(s), i + 1))
        },
        Token::Boolean(b) => {
            assert(i < toks.deep_view().len());
            Ok((ASTNode::Boolean(b), i + 1))
        },
        Token::Identifier(name) => {
            assert(i < toks.deep_view().len());
            Ok((ASTNode::Identifier(name), i + 1))
        },
        Token::LeftParen => {
            assert(i < toks.deep_view().len());
            match parse_expression(toks, i + 1, fuel - 1) {
                Ok((e, j)) => {
                    let tc = cur(toks, j);
                    if !matches!(tc, Token::RightParen) {
                        return Err(ParseError::ExpectedToken(Token::RightParen, tc));
                    }
                    assert(j < toks.deep_view().len());
                    Ok((e, j + 1))
                },
                Err(err) => Err(err),
            }
        },
        Token::Minus => {
            assert(i < toks.deep_view().len());
            match parse_expression(toks, i + 1, fuel - 1) {
                Ok((e, j)) => Ok((ASTNode::Unary(Token::Minus, Box::new(e)), j)),
                Err(err) => Err(err),
            }
        },
        Token::Bang => {
            assert(i < toks.deep_view().len());
            match parse_expression(toks, i + 1, fuel - 1) {
                Ok((e, j)) => Ok((ASTNode::Unary(Token::Bang, Box::new(e)), j)),
                Err(err) => Err(err),
            }
        },
        _ => Err(ParseError::ExpectedFactor(t)),
    }
}

/// Statements up to a closing brace (`until_brace`) or to end-of-input.
fn parse_statement_list(toks: &Vec<Token>, i: usize, until_brace: bool, fuel: u64) -> (r: Result<
    (Vec<ASTNode>, usize),
    ParseError,
>)
    ensures
        steps_matches(
            r,
            p_stmt_list(
                toks.deep_view(),
                i as nat,
                if until_brace {
                    Tok::RightBrace
                } else {
                    Tok::EndOfFile
                },
                fuel as nat,
            ),
        ),
    decreases fuel,
{
    let ghost tv = toks.deep_view();
    let ghost stop: Tok = if until_brace {
        Tok::RightBrace
    } else {
        Tok::EndOfFile
    };
    let mut stmts: Vec<ASTNode> = Vec::new();
    let mut j = i;
    let mut f = fuel;
    loop
        invariant
            tv == toks.deep_view(),
            stop == (if until_brace {
                Tok::RightBrace
            } else {
                Tok::EndOfFile
            }),
            f <= fuel,
            p_stmt_list(tv, i as nat, stop, fuel as nat) == prepend_stmts(
                view_asts(stmts@),
                p_stmt_list(tv, j as nat, stop, f as nat),
            ),
        decreases f,
    {
        if f == 0 {
            return Err(ParseError::RecursionLimit);
        }
        let t = cur(toks, j);
        let at_stop = if until_brace {
            matches!(t, Token::RightBrace)
        } else {
            matches!(t, Token::EndOfFile)
        };
        if at_stop {
            proof {
                assert(view_asts(stmts@) + Seq::<Ast>::empty() =~= view_asts(stmts@));
            }
            return Ok((stmts, j));
        }
        let ghost stmts_pre = stmts@;
        let (st, j2) = match parse_statement(toks, j, f - 1) {
            Ok(p) => p,
            Err(err) => {
                return Err(err);
            },
        };
        proof {
            assert(p_stmt_list(tv, j as nat, stop, f as nat) == prepend_stmts(
                seq![view_ast(st)],
                p_stmt_list(tv, j2 as nat, stop, (f - 1) as nat),
            ));
            lemma_prepend_stmts_assoc(
                view_asts(stmts_pre),
                view_ast(st),
                p_stmt_list(tv, j2 as nat, stop, (f - 1) as nat),
            );
            crate::ast::lemma_view_asts_push(stmts_pre, st);
        }
        stmts.push(st);
        j = j2;
        f = f - 1;
    }
}

/// The fuel bound the public parser starts from: far beyond what any input
/// that fits in memory can consume.
pub const PARSER_FUEL: u64 = u64::MAX;

/// Parses a token sequence into the syntax tree of a whole program.
///
/// The result is exactly what the mathematical parser returns: the program
/// node on success, and on failure the parse error the grammar demands at
/// the first point of mismatch.
pub fn parse(tokens: Vec<Token>) -> (r: Result<ASTNode, ParseError>)
    ensures
        match spec_parse(tokens.deep_view(), PARSER_FUEL as nat) {
            PStep::Parsed(a, j) => r matches Ok(node) && view_ast(node) == a,
            PStep::Failed(e) => r matches Err(pe) && perr_view(pe) == Some(e),
            PStep::OutOfFuel => r matches Err(pe) && pe is RecursionLimit,
        },
{
    match parse_statement_list(&tokens, 0, false, PARSER_FUEL) {
        Ok((stmts, _)) => Ok(ASTNode::Program(Box::new(stmts))),
        Err(err) => Err(err),
    }
}

} // verus!
