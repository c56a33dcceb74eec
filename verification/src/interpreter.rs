//! The evaluator: a tree-walking interpreter over the syntax tree and a
//! single flat environment, verified against a mathematical small-step
//! model.
//!
//! The model (`eval_expr_s`, `run_stmt_s`, `run_seq_s`) is a fuel-bounded
//! semantics: every nested evaluation step burns one unit of fuel, so while
//! loops and function calls that never settle surface as fuel exhaustion
//! rather than as an unbounded recursion. [`interpret`] starts from a fuel
//! bound so large that no terminating script can exhaust it; exhaustion is
//! reported as the explicit [`RuntimeError::StepLimit`] error, the
//! recursion guard this implementation adds over the abstract language.
//!
//! Printing is modelled as data: the evaluator returns the printed lines,
//! and the caller decides what to do with them.

use vstd::arithmetic::div_mod::{
    lemma_div_basics, lemma_div_decreases, lemma_div_is_ordered, lemma_div_is_ordered_by_denominator,
    lemma_div_nonincreasing, lemma_div_pos_is_pos, lemma_mod_bound,
};
use vstd::prelude::*;

use crate::ast::{lemma_view_asts_index, view_ast, view_asts, ASTNode, Ast};
use crate::env::Env;
use crate::token::{Tok, Token};

verus! {

/// A fatal runtime error. Every one of them aborts the whole run; the
/// language has no construct that could catch it.
///
/// `TypeMismatch` covers every evaluation step applied to an operand or
/// node of the wrong kind. `StepLimit` is the explicit recursion guard:
/// the evaluator's step bound ran out, which no terminating script can
/// cause at the bound [`interpret`] uses.
#[derive(Debug, PartialEq)]
pub enum RuntimeError {
    UndefinedVariable(String),
    NotCallable(String),
    TypeMismatch,
    DivisionByZero,
    ArithmeticOverflow,
    StepLimit,
}

/// The model of a [`RuntimeError`], short of the step limit.
pub ghost enum RtErr {
    UndefinedVariable(Seq<char>),
    NotCallable(Seq<char>),
    TypeMismatch,
    DivisionByZero,
    ArithmeticOverflow,
}

/// The executable error `e` is exactly the model error `s`.
pub open spec fn err_matches(e: RuntimeError, s: RtErr) -> bool {
    match (e, s) {
        (RuntimeError::UndefinedVariable(n), RtErr::UndefinedVariable(m)) => n@ == m,
        (RuntimeError::NotCallable(n), RtErr::NotCallable(m)) => n@ == m,
        (RuntimeError::TypeMismatch, RtErr::TypeMismatch) => true,
        (RuntimeError::DivisionByZero, RtErr::DivisionByZero) => true,
        (RuntimeError::ArithmeticOverflow, RtErr::ArithmeticOverflow) => true,
        _ => false,
    }
}

/// The outcome of evaluating an expression in the model: a value (always a
/// `Number`, `Str` or `Boolean` leaf), a fatal error, or fuel exhaustion.
pub ghost enum EvalStep {
    Value(Ast),
    Failed(RtErr),
    OutOfFuel,
}

/// The outcome of executing a statement in the model: the new environment
/// and output, a fatal error with the output printed up to it, or fuel
/// exhaustion with the output printed up to it.
pub ghost enum StepOut {
    Done(Map<Seq<char>, Ast>, Seq<Seq<char>>),
    Failed(RtErr, Seq<Seq<char>>),
    OutOfFuel(Seq<Seq<char>>),
}

/// Rust's truncating division (rounding toward zero), for a nonzero
/// divisor.
pub open spec fn trunc_div(x: int, d: int) -> int
    recommends
        d != 0,
{
    if x == 0 {
        0
    } else if x > 0 && d > 0 {
        x / d
    } else if x < 0 && d < 0 {
        ((x * -1) / (d * -1))
    } else if x < 0 {
        ((x * -1) / d) * -1
    } else {
        (x / (d * -1)) * -1
    }
}

/// Rust's remainder (taking the dividend's sign), for a nonzero divisor.
pub open spec fn trunc_rem(x: int, d: int) -> int
    recommends
        d != 0,
{
    if x == 0 {
        0
    } else if x > 0 && d > 0 {
        x % d
    } else if x < 0 && d < 0 {
        ((x * -1) % (d * -1)) * -1
    } else if x < 0 {
        ((x * -1) % d) * -1
    } else {
        x % (d * -1)
    }
}

/// Equality of two runtime values: defined for same-kind pairs (numbers,
/// strings, booleans, and identifier names compared as text), a type
/// mismatch for every other pairing.
pub open spec fn eq_vals(l: Ast, r: Ast) -> Result<bool, RtErr> {
    match (l, r) {
        (Ast::Number(a), Ast::Number(b)) => Ok(a == b),
        (Ast::Str(a), Ast::Str(b)) => Ok(a == b),
        (Ast::Boolean(a), Ast::Boolean(b)) => Ok(a == b),
        (Ast::Identifier(a), Ast::Identifier(b)) => Ok(a == b),
        _ => Err(RtErr::TypeMismatch),
    }
}

/// The binary operator table of the language.
///
/// `+` adds numbers or concatenates strings; `- * / %` are numeric, with
/// overflow and division by zero as explicit fatal errors; `=` and `==`
/// are the same equality; `!=` (and a bare `!` reaching binary position)
/// its negation; the comparisons are numeric; `&` and `|` take booleans.
/// Every other combination is a type mismatch.
pub open spec fn apply_binary(op: Tok, l: Ast, r: Ast) -> Result<Ast, RtErr> {
    match op {
        Tok::Plus => match (l, r) {
            (Ast::Number(a), Ast::Number(b)) => if a + b > i32::MAX as int || a + b < i32::MIN
                as int {
                Err(RtErr::ArithmeticOverflow)
            } else {
                Ok(Ast::Number(a + b))
            },
            (Ast::Str(a), Ast::Str(b)) => Ok(Ast::Str(a + b)),
            _ => Err(RtErr::TypeMismatch),
        },
        Tok::Minus => match (l, r) {
            (Ast::Number(a), Ast::Number(b)) => if a - b > i32::MAX as int || a - b < i32::MIN
                as int {
                Err(RtErr::ArithmeticOverflow)
            } else {
                Ok(Ast::Number(a - b))
            },
            _ => Err(RtErr::TypeMismatch),
        },
        Tok::Asterisk => match (l, r) {
            (Ast::Number(a), Ast::Number(b)) => if a * b > i32::MAX as int || a * b < i32::MIN
                as int {
                Err(RtErr::ArithmeticOverflow)
            } else {
                Ok(Ast::Number(a * b))
            },
            _ => Err(RtErr::TypeMismatch),
        },
        Tok::Slash => match (l, r) {
            (Ast::Number(a), Ast::Number(b)) => if b == 0 {
                Err(RtErr::DivisionByZero)
            } else if a == i32::MIN as int && b == -1 {
                Err(RtErr::ArithmeticOverflow)
            } else {
                Ok(Ast::Number(trunc_div(a, b)))
            },
            _ => Err(RtErr::TypeMismatch),
        },
        Tok::Percent => match (l, r) {
            (Ast::Number(a), Ast::Number(b)) => if b == 0 {
                Err(RtErr::DivisionByZero)
            } else if a == i32::MIN as int && b == -1 {
                Err(RtErr::ArithmeticOverflow)
            } else {
                Ok(Ast::Number(trunc_rem(a, b)))
            },
            _ => Err(RtErr::TypeMismatch),
        },
        Tok::Equals => match eq_vals(l, r) {
            Ok(b) => Ok(Ast::Boolean(b)),
            Err(e) => Err(e),
        },
        Tok::EqualEqual => match eq_vals(l, r) {
            Ok(b) => Ok(Ast::Boolean(b)),
            Err(e) => Err(e),
        },
        Tok::NotEqual => match eq_vals(l, r) {
            Ok(b) => Ok(Ast::Boolean(!b)),
            Err(e) => Err(e),
        },
        Tok::Bang => match eq_vals(l, r) {
            Ok(b) => Ok(Ast::Boolean(!b)),
            Err(e) => Err(e),
        },
        Tok::LessThan => match (l, r) {
            (Ast::Number(a), Ast::Number(b)) => Ok(Ast::Boolean(a < b)),
            _ => Err(RtErr::TypeMismatch),
        },
        Tok::LessThanEquals => match (l, r) {
            (Ast::Number(a), Ast::Number(b)) => Ok(Ast::Boolean(a <= b)),
            _ => Err(RtErr::TypeMismatch),
        },
        Tok::GreaterThan => match (l, r) {
            (Ast::Number(a), Ast::Number(b)) => Ok(Ast::Boolean(a > b)),
            _ => Err(RtErr::TypeMismatch),
        },
        Tok::GreaterThanEquals => match (l, r) {
            (Ast::Number(a), Ast::Number(b)) => Ok(Ast::Boolean(a >= b)),
            _ => Err(RtErr::TypeMismatch),
        },
        Tok::And => match (l, r) {
            (Ast::Boolean(a), Ast::Boolean(b)) => Ok(Ast::Boolean(a && b)),
            _ => Err(RtErr::TypeMismatch),
        },
        Tok::Or => match (l, r) {
            (Ast::Boolean(a), Ast::Boolean(b)) => Ok(Ast::Boolean(a || b)),
            _ => Err(RtErr::TypeMismatch),
        },
        _ => Err(RtErr::TypeMismatch),
    }
}

/// The unary operator table: `-` negates a number (with the one overflow
/// case explicit), `!` negates a boolean.
pub open spec fn apply_unary(op: Tok, v: Ast) -> Result<Ast, RtErr> {
    match op {
        Tok::Minus => match v {
            Ast::Number(a) => if -a > i32::MAX as int {
                Err(RtErr::ArithmeticOverflow)
            } else {
                Ok(Ast::Number(-a))
            },
            _ => Err(RtErr::TypeMismatch),
        },
        Tok::Bang => match v {
            Ast::Boolean(b) => Ok(Ast::Boolean(!b)),
            _ => Err(RtErr::TypeMismatch),
        },
        _ => Err(RtErr::TypeMismatch),
    }
}

/// The decimal digit characters.
pub open spec fn digit_char(d: int) -> char {
    if d == 0 {
        '0'
    } else if d == 1 {
        '1'
    } else if d == 2 {
        '2'
    } else if d == 3 {
        '3'
    } else if d == 4 {
        '4'
    } else if d == 5 {
        '5'
    } else if d == 6 {
        '6'
    } else if d == 7 {
        '7'
    } else if d == 8 {
        '8'
    } else {
        '9'
    }
}

/// The decimal notation of a natural number, without sign or padding.
pub open spec fn dec_nat_str(n: nat) -> Seq<char>
    decreases n,
    via dec_nat_str_dec
{
    if n < 10 {
        seq![digit_char(n as int)]
    } else {
        dec_nat_str(n / 10).push(digit_char((n % 10) as int))
    }
}

#[via_fn]
proof fn dec_nat_str_dec(n: nat) {
    if n >= 10 {
        lemma_div_decreases(n as int, 10);
    }
}

/// The decimal notation of an integer: a leading `-` for negative values.
pub open spec fn dec_int_str(v: int) -> Seq<char> {
    if v < 0 {
        seq!['-'] + dec_nat_str((-v) as nat)
    } else {
        dec_nat_str(v as nat)
    }
}

/// The textual form of a runtime value: the decimal notation of a number,
/// a string's own characters, `true` or `false` for a boolean. Nothing
/// else has one.
pub open spec fn spec_stringify(v: Ast) -> Option<Seq<char>> {
    match v {
        Ast::Number(n) => Some(dec_int_str(n)),
        Ast::Str(s) => Some(s),
        Ast::Boolean(b) => Some(
            if b {
                "true"@
            } else {
                "false"@
            },
        ),
        _ => None,
    }
}

/// The model of expression evaluation.
///
/// Literals evaluate to themselves; an identifier evaluates whatever node
/// the environment stores under it (which re-evaluates the stored
/// expression); binary and unary nodes evaluate their operands — both of
/// them, always — and then apply the operator table. A call reached in
/// expression position resolves like an identifier but reports
/// `NotCallable` when unbound. Statement-shaped nodes have no value.
pub open spec fn eval_expr_s(env: Map<Seq<char>, Ast>, e: Ast, fuel: nat) -> EvalStep
    decreases fuel, 0int,
{
    if fuel == 0 {
        EvalStep::OutOfFuel
    } else {
        let f = (fuel - 1) as nat;
        match e {
            Ast::Number(n) => EvalStep::Value(Ast::Number(n)),
            Ast::Str(s) => EvalStep::Value(Ast::Str(s)),
            Ast::Boolean(b) => EvalStep::Value(Ast::Boolean(b)),
            Ast::Binary(l, op, r) => match eval_expr_s(env, *l, f) {
                EvalStep::Value(lv) => match eval_expr_s(env, *r, f) {
                    EvalStep::Value(rv) => match apply_binary(op, lv, rv) {
                        Ok(v) => EvalStep::Value(v),
                        Err(err) => EvalStep::Failed(err),
                    },
                    other => other,
                },
                other => other,
            },
            Ast::Unary(op, e2) => match eval_expr_s(env, *e2, f) {
                EvalStep::Value(v) => match apply_unary(op, v) {
                    Ok(w) => EvalStep::Value(w),
                    Err(err) => EvalStep::Failed(err),
                },
                other => other,
            },
            Ast::Identifier(name) => if env.contains_key(name) {
                eval_expr_s(env, env[name], f)
            } else {
                EvalStep::Failed(RtErr::UndefinedVariable(name))
            },
            Ast::FunctionCall(name) => if env.contains_key(name) {
                eval_expr_s(env, env[name], f)
            } else {
                EvalStep::Failed(RtErr::NotCallable(name))
            },
            _ => EvalStep::Failed(RtErr::TypeMismatch),
        }
    }
}

/// The model of statement execution.
///
/// A declaration stores its initializer unevaluated; an assignment
/// evaluates first and then demands that the name already be bound; a
/// call runs the stored function body against the same shared
/// environment; `p` appends the value's textual form to the output; `i`
/// and `w` demand a boolean condition and report a type mismatch for
/// anything else.
pub open spec fn run_stmt_s(
    env: Map<Seq<char>, Ast>,
    out: Seq<Seq<char>>,
    s: Ast,
    fuel: nat,
) -> StepOut
    decreases fuel, 0int,
{
    if fuel == 0 {
        StepOut::OutOfFuel(out)
    } else {
        let f = (fuel - 1) as nat;
        match s {
            Ast::Program(stmts) => run_seq_s(env, out, stmts, f),
            Ast::VariableDeclaration(name, init) => StepOut::Done(env.insert(name, *init), out),
            Ast::VariableAssignment(name, e) => match eval_expr_s(env, *e, f) {
                EvalStep::Value(v) => if env.contains_key(name) {
                    StepOut::Done(env.insert(name, v), out)
                } else {
                    StepOut::Failed(RtErr::UndefinedVariable(name), out)
                },
                EvalStep::Failed(err) => StepOut::Failed(err, out),
                EvalStep::OutOfFuel => StepOut::OutOfFuel(out),
            },
            Ast::Identifier(name) => if env.contains_key(name) {
                run_stmt_s(env, out, env[name], f)
            } else {
                StepOut::Failed(RtErr::UndefinedVariable(name), out)
            },
            Ast::FunctionCall(name) => if env.contains_key(name) {
                match env[name] {
                    Ast::FunctionDeclaration(_, body) => run_seq_s(env, out, body, f),
                    _ => StepOut::Failed(RtErr::NotCallable(name), out),
                }
            } else {
                StepOut::Failed(RtErr::NotCallable(name), out)
            },
            Ast::FunctionDeclaration(name, body) => StepOut::Done(
                env.insert(name, Ast::FunctionDeclaration(name, body)),
                out,
            ),
            Ast::Print(e) => match eval_expr_s(env, *e, f) {
                EvalStep::Value(v) => match spec_stringify(v) {
                    Some(line) => StepOut::Done(env, out.push(line)),
                    None => StepOut::Failed(RtErr::TypeMismatch, out),
                },
                EvalStep::Failed(err) => StepOut::Failed(err, out),
                EvalStep::OutOfFuel => StepOut::OutOfFuel(out),
            },
            Ast::If(cond, body) => match eval_expr_s(env, *cond, f) {
                EvalStep::Value(Ast::Boolean(true)) => run_seq_s(env, out, body, f),
                EvalStep::Value(Ast::Boolean(false)) => StepOut::Done(env, out),
                EvalStep::Value(_) => StepOut::Failed(RtErr::TypeMismatch, out),
                EvalStep::Failed(err) => StepOut::Failed(err, out),
                EvalStep::OutOfFuel => StepOut::OutOfFuel(out),
            },
            Ast::While(cond, body) => match eval_expr_s(env, *cond, f) {
                EvalStep::Value(Ast::Boolean(true)) => match run_seq_s(env, out, body, f) {
                    StepOut::Done(env2, out2) => run_stmt_s(env2, out2, s, f),
                    other => other,
                },
                EvalStep::Value(Ast::Boolean(false)) => StepOut::Done(env, out),
                EvalStep::Value(_) => StepOut::Failed(RtErr::TypeMismatch, out),
                EvalStep::Failed(err) => StepOut::Failed(err, out),
                EvalStep::OutOfFuel => StepOut::OutOfFuel(out),
            },
            _ => StepOut::Failed(RtErr::TypeMismatch, out),
        }
    }
}

/// The model of executing a statement sequence in order, against one
/// shared environment.
pub open spec fn run_seq_s(
    env: Map<Seq<char>, Ast>,
    out: Seq<Seq<char>>,
    stmts: Seq<Ast>,
    fuel: nat,
) -> StepOut
    decreases fuel, stmts.len() + 1,
{
    if stmts.len() == 0 {
        StepOut::Done(env, out)
    } else {
        match run_stmt_s(env, out, stmts[0], fuel) {
            StepOut::Done(env2, out2) => run_seq_s(env2, out2, stmts.drop_first(), fuel),
            other => other,
        }
    }
}

/// The truncating quotient of two 32-bit values stays in the 32-bit range
/// except for the one overflowing case.
proof fn lemma_trunc_div_in_range(a: int, b: int)
    requires
        i32::MIN <= a <= i32::MAX,
        i32::MIN <= b <= i32::MAX,
        b != 0,
        !(a == i32::MIN as int && b == -1),
    ensures
        i32::MIN <= trunc_div(a, b) <= i32::MAX,
{
    if a == 0 {
    } else if a > 0 && b > 0 {
        lemma_div_pos_is_pos(a, b);
        lemma_div_nonincreasing(a, b);
    } else if a < 0 && b < 0 {
        lemma_div_pos_is_pos(a * -1, b * -1);
        if b == -1 {
            lemma_div_basics(a * -1);
        } else {
            lemma_div_is_ordered_by_denominator(a * -1, 2, b * -1);
            lemma_div_is_ordered(a * -1, 0x8000_0000, 2);
            assert(0x8000_0000int / 2 == 0x4000_0000int);
        }
    } else if a < 0 {
        lemma_div_pos_is_pos(a * -1, b);
        lemma_div_nonincreasing(a * -1, b);
    } else {
        lemma_div_pos_is_pos(a, b * -1);
        lemma_div_nonincreasing(a, b * -1);
    }
}

/// The remainder of two 32-bit values stays in the 32-bit range except
/// for the one overflowing case.
proof fn lemma_trunc_rem_in_range(a: int, b: int)
    requires
        i32::MIN <= a <= i32::MAX,
        i32::MIN <= b <= i32::MAX,
        b != 0,
        !(a == i32::MIN as int && b == -1),
    ensures
        i32::MIN <= trunc_rem(a, b) <= i32::MAX,
{
    if a == 0 {
    } else if a > 0 && b > 0 {
        lemma_mod_bound(a, b);
    } else if a < 0 && b < 0 {
        lemma_mod_bound(a * -1, b * -1);
    } else if a < 0 {
        lemma_mod_bound(a * -1, b);
    } else {
        lemma_mod_bound(a, b * -1);
    }
}

/// The executable outcome `r` of a pure operator application is exactly
/// the model outcome `s`.
pub open spec fn op_res_matches(r: Result<ASTNode, RuntimeError>, s: Result<Ast, RtErr>) -> bool {
    match s {
        Ok(v) => r matches Ok(n) && view_ast(n) == v,
        Err(e) => r matches Err(re) && err_matches(re, e),
    }
}

/// Adds two numbers, or concatenates two strings.
fn evaluate_addition(l: ASTNode, r: ASTNode) -> (res: Result<ASTNode, RuntimeError>)
    ensures
        op_res_matches(res, apply_binary(Tok::Plus, view_ast(l), view_ast(r))),
{
    match (l, r) {
        (ASTNode::Number(a), ASTNode::Number(b)) => match a.checked_add(b) {
            Some(c) => Ok(ASTNode::Number(c)),
            None => Err(RuntimeError::ArithmeticOverflow),
        },
        (ASTNode::String(a), ASTNode::String(b)) => Ok(ASTNode::String(a.concat(b.as_str()))),
        _ => Err(RuntimeError::TypeMismatch),
    }
}

/// Subtracts two numbers.
fn evaluate_subtraction(l: ASTNode, r: ASTNode) -> (res: Result<ASTNode, RuntimeError>)
    ensures
        op_res_matches(res, apply_binary(Tok::Minus, view_ast(l), view_ast(r))),
{
    match (l, r) {
        (ASTNode::Number(a), ASTNode::Number(b)) => match a.checked_sub(b) {
            Some(c) => Ok(ASTNode::Number(c)),
            None => Err(RuntimeError::ArithmeticOverflow),
        },
        _ => Err(RuntimeError::TypeMismatch),
    }
}

/// Multiplies two numbers.
fn evaluate_multiplication(l: ASTNode, r: ASTNode) -> (res: Result<ASTNode, RuntimeError>)
    ensures
        op_res_matches(res, apply_binary(Tok::Asterisk, view_ast(l), view_ast(r))),
{
    match (l, r) {
        (ASTNode::Number(a), ASTNode::Number(b)) => match a.checked_mul(b) {
            Some(c) => Ok(ASTNode::Number(c)),
            None => Err(RuntimeError::ArithmeticOverflow),
        },
        _ => Err(RuntimeError::TypeMismatch),
    }
}

/// Divides two numbers, truncating toward zero.
fn evaluate_division(l: ASTNode, r: ASTNode) -> (res: Result<ASTNode, RuntimeError>)
    ensures
        op_res_matches(res, apply_binary(Tok::Slash, view_ast(l), view_ast(r))),
{
    match (l, r) {
        (ASTNode::Number(a), ASTNode::Number(b)) => {
            if b == 0 {
                return Err(RuntimeError::DivisionByZero);
            }
            proof {
                if a == i32::MIN && b == -1 {
                    lemma_div_basics(a as int * -1);
                } else {
                    lemma_trunc_div_in_range(a as int, b as int);
                }
            }
            match a.checked_div(b) {
                Some(q) => Ok(ASTNode::Number(q)),
                None => Err(RuntimeError::ArithmeticOverflow),
            }
        },
        _ => Err(RuntimeError::TypeMismatch),
    }
}

/// The remainder of two numbers, taking the dividend's sign.
fn evaluate_modulo(l: ASTNode, r: ASTNode) -> (res: Result<ASTNode, RuntimeError>)
    ensures
        op_res_matches(res, apply_binary(Tok::Percent, view_ast(l), view_ast(r))),
{
    match (l, r) {
        (ASTNode::Number(a), ASTNode::Number(b)) => {
            if b == 0 {
                return Err(RuntimeError::DivisionByZero);
            }
            proof {
                if !(a == i32::MIN && b == -1) {
                    lemma_trunc_rem_in_range(a as int, b as int);
                }
            }
            match a.checked_rem(b) {
                Some(m) => Ok(ASTNode::Number(m)),
                None => Err(RuntimeError::ArithmeticOverflow),
            }
        },
        _ => Err(RuntimeError::TypeMismatch),
    }
}

/// Value equality, decided executably.
fn eq_leaves(l: &ASTNode, r: &ASTNode) -> (res: Result<bool, RuntimeError>)
    ensures
        match eq_vals(view_ast(*l), view_ast(*r)) {
            Ok(b) => res == Ok::<bool, RuntimeError>(b),
            Err(e) => res matches Err(re) && err_matches(re, e),
        },
{
    match (l, r) {
        (ASTNode::Number(a), ASTNode::Number(b)) => Ok(*a == *b),
        (ASTNode::String(a), ASTNode::String(b)) => Ok(*a == *b),
        (ASTNode::Boolean(a), ASTNode::Boolean(b)) => Ok(*a == *b),
        (ASTNode::Identifier(a), ASTNode::Identifier(b)) => Ok(*a == *b),
        _ => Err(RuntimeError::TypeMismatch),
    }
}

/// Compares two numbers.
fn evaluate_comparison(l: ASTNode, op: &Token, r: ASTNode) -> (res: Result<ASTNode, RuntimeError>)
    requires
        op@ == Tok::LessThan || op@ == Tok::LessThanEquals || op@ == Tok::GreaterThan || op@
            == Tok::GreaterThanEquals,
    ensures
        op_res_matches(res, apply_binary(op@, view_ast(l), view_ast(r))),
{
    match (l, r) {
        (ASTNode::Number(a), ASTNode::Number(b)) => {
            let c = match op {
                Token::LessThan => a < b,
                Token::LessThanEquals => a <= b,
                Token::GreaterThan => a > b,
                _ => a >= b,
            };
            Ok(ASTNode::Boolean(c))
        },
        _ => Err(RuntimeError::TypeMismatch),
    }
}

/// Applies a binary operator to two evaluated values.
fn evaluate_binary_operation(l: ASTNode, op: &Token, r: ASTNode) -> (res: Result<
    ASTNode,
    RuntimeError,
>)
    ensures
        op_res_matches(res, apply_binary(op@, view_ast(l), view_ast(r))),
{
    match op {
        Token::Plus => evaluate_addition(l, r),
        Token::Minus => evaluate_subtraction(l, r),
        Token::Asterisk => evaluate_multiplication(l, r),
        Token::Slash => evaluate_division(l, r),
        Token::Percent => evaluate_modulo(l, r),
        Token::Equals | Token::EqualEqual => match eq_leaves(&l, &r) {
            Ok(b) => Ok(ASTNode::Boolean(b)),
            Err(err) => Err(err),
        },
        Token::NotEqual | Token::Bang => match eq_leaves(&l, &r) {
            Ok(b) => Ok(ASTNode::Boolean(!b)),
            Err(err) => Err(err),
        },
        Token::LessThan | Token::LessThanEquals | Token::GreaterThan | Token::GreaterThanEquals => {
            evaluate_comparison(l, op, r)
        },
        Token::And => match (l, r) {
            (ASTNode::Boolean(a), ASTNode::Boolean(b)) => Ok(ASTNode::Boolean(a && b)),
            _ => Err(RuntimeError::TypeMismatch),
        },
        Token::Or => match (l, r) {
            (ASTNode::Boolean(a), ASTNode::Boolean(b)) => Ok(ASTNode::Boolean(a || b)),
            _ => Err(RuntimeError::TypeMismatch),
        },
        _ => Err(RuntimeError::TypeMismatch),
    }
}

/// Applies a unary operator to an evaluated value.
fn evaluate_unary_operation(op: &Token, v: ASTNode) -> (res: Result<ASTNode, RuntimeError>)
    ensures
        op_res_matches(res, apply_unary(op@, view_ast(v))),
{
    match op {
        Token::Minus => match v {
            ASTNode::Number(a) => {
                if a == i32::MIN {
                    Err(RuntimeError::ArithmeticOverflow)
                } else {
                    Ok(ASTNode::Number(-a))
                }
            },
            _ => Err(RuntimeError::TypeMismatch),
        },
        Token::Bang => match v {
            ASTNode::Boolean(b) => Ok(ASTNode::Boolean(!b)),
            _ => Err(RuntimeError::TypeMismatch),
        },
        _ => Err(RuntimeError::TypeMismatch),
    }
}

/// One decimal digit as text.
fn digit_str(d: u32) -> (r: &'static str)
    requires
        d < 10,
    ensures
        r@ == seq![digit_char(d as int)],
{
    proof {
        reveal_strlit("0");
        reveal_strlit("1");
        reveal_strlit("2");
        reveal_strlit("3");
        reveal_strlit("4");
        reveal_strlit("5");
        reveal_strlit("6");
        reveal_strlit("7");
        reveal_strlit("8");
        reveal_strlit("9");
    }
    match d {
        0 => "0",
        1 => "1",
        2 => "2",
        3 => "3",
        4 => "4",
        5 => "5",
        6 => "6",
        7 => "7",
        8 => "8",
        _ => "9",
    }
}

/// Appends the decimal notation of `m` to `s`.
fn push_digits(s: &mut String, m: u32)
    ensures
        final(s)@ == old(s)@ + dec_nat_str(m as nat),
    decreases m,
{
    if m < 10 {
        s.append(digit_str(m));
        proof {
            assert(old(s)@ + seq![digit_char(m as int)] =~= s@);
        }
    } else {
        proof {
            lemma_div_decreases(m as int, 10);
        }
        let q = m / 10;
        let d = m % 10;
        push_digits(s, q);
        s.append(digit_str(d));
        proof {
            assert((old(s)@ + dec_nat_str((m / 10) as nat)) + seq![digit_char((m % 10) as int)]
                =~= old(s)@ + dec_nat_str((m / 10) as nat).push(digit_char((m % 10) as int)));
        }
    }
}

/// The decimal notation of a 32-bit number.
pub fn int_to_string(v: i32) -> (s: String)
    ensures
        s@ == dec_int_str(v as int),
{
    let mut s = String::new();
    if v < 0 {
        s.append("-");
        proof {
            reveal_strlit("-");
            assert(s@ =~= seq!['-']);
        }
        let m: u32 = if v == i32::MIN {
            2147483648u32
        } else {
            (-v) as u32
        };
        push_digits(&mut s, m);
        proof {
            assert(m as nat == (-(v as int)) as nat);
            assert(s@ =~= seq!['-'] + dec_nat_str((-(v as int)) as nat));
        }
    } else {
        push_digits(&mut s, v as u32);
    }
    s
}

/// The textual form of an evaluated value; anything but a number, string
/// or boolean is a type mismatch.
pub fn stringify_value(v: &ASTNode) -> (r: Result<String, RuntimeError>)
    ensures
        match spec_stringify(view_ast(*v)) {
            Some(line) => r matches Ok(s) && s@ == line,
            None => r matches Err(e) && e is TypeMismatch,
        },
{
    match v {
        ASTNode::Number(n) => Ok(int_to_string(*n)),
        ASTNode::String(s) => Ok(s.clone()),
        ASTNode::Boolean(b) => Ok(
            if *b {
                String::from_str("true")
            } else {
                String::from_str("false")
            },
        ),
        _ => Err(RuntimeError::TypeMismatch),
    }
}

/// Evaluates an expression against the environment, without changing it.
///
/// The result is exactly what the model demands: the model's value on
/// success, the model's error on failure, and `StepLimit` exactly when the
/// model runs out of fuel.
pub fn evaluate_expression(env: &Env, e: &ASTNode, fuel: u64) -> (r: Result<ASTNode, RuntimeError>)
    requires
        env.wf(),
    ensures
        match eval_expr_s(env.as_map(), view_ast(*e), fuel as nat) {
            EvalStep::Value(v) => r matches Ok(node) && view_ast(node) == v,
            EvalStep::Failed(err) => r matches Err(re) && err_matches(re, err),
            EvalStep::OutOfFuel => r matches Err(re) && re is StepLimit,
        },
    decreases fuel, 0int,
{
    if fuel == 0 {
        return Err(RuntimeError::StepLimit);
    }
    match e {
        ASTNode::Number(n) => Ok(ASTNode::Number(*n)),
        ASTNode::String(s) => Ok(ASTNode::String(s.clone())),
        ASTNode::Boolean(b) => Ok(ASTNode::Boolean(*b)),
        ASTNode::Binary(l, op, r) => {
            let lv = match evaluate_expression(env, &**l, fuel - 1) {
                Ok(v) => v,
                Err(err) => {
                    return Err(err);
                },
            };
            let rv = match evaluate_expression(env, &**r, fuel - 1) {
                Ok(v) => v,
                Err(err) => {
                    return Err(err);
                },
            };
            evaluate_binary_operation(lv, op, rv)
        },
        ASTNode::Unary(op, e2) => {
            let v = match evaluate_expression(env, &**e2, fuel - 1) {
                Ok(v) => v,
                Err(err) => {
                    return Err(err);
                },
            };
            evaluate_unary_operation(op, v)
        },
        ASTNode::Identifier(name) => match env.get(name) {
            Some(node) => evaluate_expression(env, node, fuel - 1),
            None => Err(RuntimeError::UndefinedVariable(name.clone())),
        },
        ASTNode::FunctionCall(name) => match env.get(name) {
            Some(node) => evaluate_expression(env, node, fuel - 1),
            None => Err(RuntimeError::NotCallable(name.clone())),
        },
        _ => Err(RuntimeError::TypeMismatch),
    }
}

/// The executable outcome `r`, final environment and final output are
/// exactly what the model step `s` demands. On an error the model does not
/// constrain the environment (the run is over), but the output printed up
/// to the error is pinned down.
pub open spec fn step_out_matches(
    r: Result<(), RuntimeError>,
    env: Env,
    out: Vec<String>,
    s: StepOut,
) -> bool {
    match s {
        StepOut::Done(em, om) => r is Ok && env.as_map() == em && out.deep_view() == om,
        StepOut::Failed(err, om) => r matches Err(re) && err_matches(re, err) && out.deep_view()
            == om,
        StepOut::OutOfFuel(om) => r matches Err(re) && re is StepLimit && out.deep_view() == om,
    }
}

/// Executes one statement against the shared environment, appending
/// whatever it prints to `out`.
pub fn run_stmt(env: &mut Env, out: &mut Vec<String>, s: &ASTNode, fuel: u64) -> (r: Result<
    (),
    RuntimeError,
>)
    requires
        old(env).wf(),
    ensures
        final(env).wf(),
        step_out_matches(
            r,
            *final(env),
            *final(out),
            run_stmt_s(old(env).as_map(), old(out).deep_view(), view_ast(*s), fuel as nat),
        ),
    decreases fuel, 0int,
{
    if fuel == 0 {
        return Err(RuntimeError::StepLimit);
    }
    match s {
        ASTNode::Program(stmts) => run_seq(env, out, &**stmts, fuel - 1),
        ASTNode::VariableDeclaration(name, init) => {
            env.set(name.clone(), (**init).clone());
            Ok(())
        },
        ASTNode::VariableAssignment(name, e) => {
            let v = match evaluate_expression(env, &**e, fuel - 1) {
                Ok(v) => v,
                Err(err) => {
                    return Err(err);
                },
            };
            match env.get(name) {
                Some(_) => {
                    env.set(name.clone(), v);
                    Ok(())
                },
                None => Err(RuntimeError::UndefinedVariable(name.clone())),
            }
        },
        ASTNode::Identifier(name) => {
            let node = match env.get(name) {
                Some(n) => n.clone(),
                None => {
                    return Err(RuntimeError::UndefinedVariable(name.clone()));
                },
            };
            run_stmt(env, out, &node, fuel - 1)
        },
        ASTNode::FunctionCall(name) => {
            let node = match env.get(name) {
                Some(n) => n.clone(),
                None => {
                    return Err(RuntimeError::NotCallable(name.clone()));
                },
            };
            match node {
                ASTNode::FunctionDeclaration(_, body) => run_seq(env, out, &body, fuel - 1),
                _ => Err(RuntimeError::NotCallable(name.clone())),
            }
        },
        ASTNode::FunctionDeclaration(name, _) => {
            env.set(name.clone(), s.clone());
            Ok(())
        },
        ASTNode::Print(e) => {
            let v = match evaluate_expression(env, &**e, fuel - 1) {
                Ok(v) => v,
                Err(err) => {
                    return Err(err);
                },
            };
            match stringify_value(&v) {
                Ok(line) => {
                    let ghost out_pre = out.deep_view();
                    out.push(line);
                    proof {
                        assert(out.deep_view() =~= out_pre.push(out@.last()@));
                    }
                    Ok(())
                },
                Err(err) => Err(err),
            }
        },
        ASTNode::If(cond, body) => {
            let v = match evaluate_expression(env, &**cond, fuel - 1) {
                Ok(v) => v,
                Err(err) => {
                    return Err(err);
                },
            };
            match v {
                ASTNode::Boolean(true) => run_seq(env, out, body, fuel - 1),
                ASTNode::Boolean(false) => Ok(()),
                _ => Err(RuntimeError::TypeMismatch),
            }
        },
        ASTNode::While(cond, body) => {
            let ghost env0 = old(env).as_map();
            let ghost out0 = old(out).deep_view();
            let ghost wnode = view_ast(*s);
            let mut f: u64 = fuel;
            loop
                invariant
                    env.wf(),
                    f <= fuel,
                    env0 == old(env).as_map(),
                    out0 == old(out).deep_view(),
                    wnode == view_ast(*s),
                    wnode matches Ast::While(wc, wb) && *wc == view_ast(**cond) && wb
                        == view_asts(body@),
                    run_stmt_s(env0, out0, wnode, fuel as nat) == run_stmt_s(
                        env.as_map(),
                        out.deep_view(),
                        wnode,
                        f as nat,
                    ),
                decreases f,
            {
                if f == 0 {
                    return Err(RuntimeError::StepLimit);
                }
                let v = match evaluate_expression(env, &**cond, f - 1) {
                    Ok(v) => v,
                    Err(err) => {
                        return Err(err);
                    },
                };
                match v {
                    ASTNode::Boolean(false) => {
                        return Ok(());
                    },
                    ASTNode::Boolean(true) => {
                        match run_seq(env, out, body, f - 1) {
                            Ok(()) => {
                                f = f - 1;
                            },
                            Err(err) => {
                                return Err(err);
                            },
                        }
                    },
                    _ => {
                        return Err(RuntimeError::TypeMismatch);
                    },
                }
            }
        },
        _ => Err(RuntimeError::TypeMismatch),
    }
}

/// Executes a statement sequence in order against the shared environment.
pub fn run_seq(env: &mut Env, out: &mut Vec<String>, stmts: &Vec<ASTNode>, fuel: u64) -> (r: Result<
    (),
    RuntimeError,
>)
    requires
        old(env).wf(),
    ensures
        final(env).wf(),
        step_out_matches(
            r,
            *final(env),
            *final(out),
            run_seq_s(old(env).as_map(), old(out).deep_view(), view_asts(stmts@), fuel as nat),
        ),
    decreases fuel, stmts@.len() + 1,
{
    let ghost env0 = old(env).as_map();
    let ghost out0 = old(out).deep_view();
    let ghost sv = view_asts(stmts@);
    proof {
        lemma_view_asts_index(stmts@);
    }
    proof {
        assert(sv.skip(0) =~= sv);
    }
    let mut k: usize = 0;
    while k < stmts.len()
        invariant
            env.wf(),
            env0 == old(env).as_map(),
            out0 == old(out).deep_view(),
            k <= stmts@.len(),
            sv == view_asts(stmts@),
            sv.len() == stmts@.len(),
            forall|m: int| 0 <= m < stmts@.len() ==> sv[m] == view_ast(stmts@[m]),
            run_seq_s(env0, out0, sv, fuel as nat) == run_seq_s(
                env.as_map(),
                out.deep_view(),
                sv.skip(k as int),
                fuel as nat,
            ),
        decreases stmts@.len() - k,
    {
        let ghost env_pre = env.as_map();
        let ghost out_pre = out.deep_view();
        let res = run_stmt(env, out, &stmts[k], fuel);
        proof {
            assert(sv.skip(k as int).len() == sv.len() - k);
            assert(sv.skip(k as int)[0] == sv[k as int]);
            assert(sv.skip(k as int).drop_first() =~= sv.skip(k as int + 1));
        }
        match res {
            Ok(()) => {},
            Err(err) => {
                return Err(err);
            },
        }
        k = k + 1;
    }
    proof {
        assert(sv.skip(sv.len() as int) =~= Seq::<Ast>::empty());
    }
    Ok(())
}

/// The outcome of a whole run: the lines the program printed, in order,
/// and the fatal error that stopped it, if any.
#[derive(Debug, PartialEq)]
pub struct RunResult {
    pub output: Vec<String>,
    pub error: Option<RuntimeError>,
}

/// The run result `r` is exactly what the model step `s` demands: the same
/// output lines, and an error exactly when the model fails (the final
/// environment is discarded).
pub open spec fn run_result_matches(r: RunResult, s: StepOut) -> bool {
    match s {
        StepOut::Done(_, om) => r.error is None && r.output.deep_view() == om,
        StepOut::Failed(err, om) => r.error matches Some(e) && err_matches(e, err)
            && r.output.deep_view() == om,
        StepOut::OutOfFuel(om) => r.error matches Some(e) && e is StepLimit && r.output.deep_view()
            == om,
    }
}

/// The fuel bound a whole run starts from: far beyond what any
/// terminating script can consume.
pub const INTERP_FUEL: u64 = u64::MAX;

/// Runs a program against a fresh, empty environment.
///
/// The result is exactly what the model demands of the whole run: the
/// printed lines in order, and the first fatal error if the model fails.
pub fn interpret(ast: ASTNode) -> (r: RunResult)
    ensures
        run_result_matches(
            r,
            run_stmt_s(
                Map::<Seq<char>, Ast>::empty(),
                Seq::<Seq<char>>::empty(),
                view_ast(ast),
                INTERP_FUEL as nat,
            ),
        ),
{
    let mut env = Env::new();
    let mut output: Vec<String> = Vec::new();
    proof {
        assert(output.deep_view() =~= Seq::<Seq<char>>::empty());
    }
    let res = run_stmt(&mut env, &mut output, &ast, INTERP_FUEL);
    match res {
        Ok(()) => RunResult { output, error: None },
        Err(e) => RunResult { output, error: Some(e) },
    }
}

} // verus!
