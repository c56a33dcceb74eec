//! Laws of the language, stated against the models and proved once for
//! all inputs: the flat operator precedence, the reach of the unary
//! operators, declare-before-use, the two sides of a conditional, and the
//! eager evaluation of both boolean operands.

use vstd::prelude::*;

use crate::ast::Ast;
use crate::interpreter::{
    dec_int_str, eval_expr_s, run_seq_s, run_stmt_s, EvalStep, RtErr, StepOut, INTERP_FUEL,
};
use crate::parser::{spec_parse, PStep, PARSER_FUEL};
use crate::token::Tok;

verus! {

/// Precedence is flat and left-to-right at the simple tier: for all
/// numbers, the program `p n1 + n2 * n3` parses as `(n1 + n2) * n3` — not
/// as `n1 + (n2 * n3)` — and prints the decimal notation of
/// `(n1 + n2) * n3`.
#[verifier::rlimit(100)]
pub proof fn lemma_flat_precedence(n1: int, n2: int, n3: int)
    requires
        i32::MIN <= n1 <= i32::MAX,
        i32::MIN <= n2 <= i32::MAX,
        i32::MIN <= n3 <= i32::MAX,
        i32::MIN <= n1 + n2 <= i32::MAX,
        i32::MIN <= (n1 + n2) * n3 <= i32::MAX,
    ensures
        spec_parse(
            seq![
                Tok::Print,
                Tok::Number(n1),
                Tok::Plus,
                Tok::Number(n2),
                Tok::Asterisk,
                Tok::Number(n3),
                Tok::EndOfFile,
            ],
            PARSER_FUEL as nat,
        ) == PStep::<Ast>::Parsed(
            Ast::Program(
                seq![
                    Ast::Print(
                        Box::new(
                            Ast::Binary(
                                Box::new(
                                    Ast::Binary(
                                        Box::new(Ast::Number(n1)),
                                        Tok::Plus,
                                        Box::new(Ast::Number(n2)),
                                    ),
                                ),
                                Tok::Asterisk,
                                Box::new(Ast::Number(n3)),
                            ),
                        ),
                    ),
                ],
            ),
            6nat,
        ),
        run_stmt_s(
            Map::<Seq<char>, Ast>::empty(),
            Seq::<Seq<char>>::empty(),
            Ast::Program(
                seq![
                    Ast::Print(
                        Box::new(
                            Ast::Binary(
                                Box::new(
                                    Ast::Binary(
                                        Box::new(Ast::Number(n1)),
                                        Tok::Plus,
                                        Box::new(Ast::Number(n2)),
                                    ),
                                ),
                                Tok::Asterisk,
                                Box::new(Ast::Number(n3)),
                            ),
                        ),
                    ),
                ],
            ),
            INTERP_FUEL as nat,
        ) == StepOut::Done(Map::<Seq<char>, Ast>::empty(), seq![dec_int_str((n1 + n2) * n3)]),
{
    reveal_with_fuel(crate::parser::p_stmt_list, 3);
    reveal_with_fuel(crate::parser::p_stmt, 2);
    reveal_with_fuel(crate::parser::p_expr, 2);
    reveal_with_fuel(crate::parser::p_expr_tail, 2);
    reveal_with_fuel(crate::parser::p_simple, 2);
    reveal_with_fuel(crate::parser::p_simple_tail, 4);
    reveal_with_fuel(crate::parser::p_term, 4);
    reveal_with_fuel(crate::parser::p_term_tail, 4);
    reveal_with_fuel(crate::parser::p_factor, 4);
    let st = Ast::Print(
        Box::new(
            Ast::Binary(
                Box::new(Ast::Binary(Box::new(Ast::Number(n1)), Tok::Plus, Box::new(Ast::Number(n2)))),
                Tok::Asterisk,
                Box::new(Ast::Number(n3)),
            ),
        ),
    );
    assert(seq![st] + Seq::<Ast>::empty() =~= seq![st]);
    reveal_with_fuel(crate::interpreter::run_stmt_s, 3);
    reveal_with_fuel(crate::interpreter::run_seq_s, 3);
    reveal_with_fuel(crate::interpreter::eval_expr_s, 5);
    assert(seq![st].drop_first() =~= Seq::<Ast>::empty());
    assert(Seq::<Seq<char>>::empty().push(dec_int_str((n1 + n2) * n3)) =~= seq![
        dec_int_str((n1 + n2) * n3),
    ]);
}

/// A unary operator binds the entire trailing expression: for all numbers,
/// the program `p - n1 + n2` parses as `-(n1 + n2)` — not as `(-n1) + n2` —
/// and prints the decimal notation of `-(n1 + n2)`.
#[verifier::rlimit(100)]
pub proof fn lemma_unary_binds_trailing(n1: int, n2: int)
    requires
        i32::MIN <= n1 <= i32::MAX,
        i32::MIN <= n2 <= i32::MAX,
        i32::MIN <= n1 + n2 <= i32::MAX,
        -(n1 + n2) <= i32::MAX,
    ensures
        spec_parse(
            seq![
                Tok::Print,
                Tok::Minus,
                Tok::Number(n1),
                Tok::Plus,
                Tok::Number(n2),
                Tok::EndOfFile,
            ],
            PARSER_FUEL as nat,
        ) == PStep::<Ast>::Parsed(
            Ast::Program(
                seq![
                    Ast::Print(
                        Box::new(
                            Ast::Unary(
                                Tok::Minus,
                                Box::new(
                                    Ast::Binary(
                                        Box::new(Ast::Number(n1)),
                                        Tok::Plus,
                                        Box::new(Ast::Number(n2)),
                                    ),
                                ),
                            ),
                        ),
                    ),
                ],
            ),
            5nat,
        ),
        run_stmt_s(
            Map::<Seq<char>, Ast>::empty(),
            Seq::<Seq<char>>::empty(),
            Ast::Program(
                seq![
                    Ast::Print(
                        Box::new(
                            Ast::Unary(
                                Tok::Minus,
                                Box::new(
                                    Ast::Binary(
                                        Box::new(Ast::Number(n1)),
                                        Tok::Plus,
                                        Box::new(Ast::Number(n2)),
                                    ),
                                ),
                            ),
                        ),
                    ),
                ],
            ),
            INTERP_FUEL as nat,
        ) == StepOut::Done(Map::<Seq<char>, Ast>::empty(), seq![dec_int_str(-(n1 + n2))]),
{
    let toks = seq![
        Tok::Print,
        Tok::Minus,
        Tok::Number(n1),
        Tok::Plus,
        Tok::Number(n2),
        Tok::EndOfFile,
    ];
    let bin = Ast::Binary(Box::new(Ast::Number(n1)), Tok::Plus, Box::new(Ast::Number(n2)));
    let un = Ast::Unary(Tok::Minus, Box::new(bin));
    let st = Ast::Print(Box::new(un));
    let fp = PARSER_FUEL as nat;
    let f1 = (fp - 1) as nat;
    let f2 = (fp - 2) as nat;
    let f3 = (fp - 3) as nat;
    let f4 = (fp - 4) as nat;
    let f5 = (fp - 5) as nat;
    let f6 = (fp - 6) as nat;
    let f7 = (fp - 7) as nat;
    assert(crate::parser::p_expr(toks, 2, f7) == PStep::<Ast>::Parsed(bin, 5nat)) by {
        reveal_with_fuel(crate::parser::p_expr, 2);
        reveal_with_fuel(crate::parser::p_expr_tail, 2);
        reveal_with_fuel(crate::parser::p_simple, 2);
        reveal_with_fuel(crate::parser::p_simple_tail, 3);
        reveal_with_fuel(crate::parser::p_term, 3);
        reveal_with_fuel(crate::parser::p_term_tail, 3);
        reveal_with_fuel(crate::parser::p_factor, 3);
    }
    assert(crate::parser::p_factor(toks, 1, f6) == PStep::<Ast>::Parsed(un, 5nat)) by {
        reveal_with_fuel(crate::parser::p_factor, 2);
        assert((f6 - 1) as nat == f7);
    }
    assert(crate::parser::p_expr(toks, 1, f3) == PStep::<Ast>::Parsed(un, 5nat)) by {
        reveal_with_fuel(crate::parser::p_expr, 2);
        reveal_with_fuel(crate::parser::p_expr_tail, 2);
        reveal_with_fuel(crate::parser::p_simple, 2);
        reveal_with_fuel(crate::parser::p_simple_tail, 2);
        reveal_with_fuel(crate::parser::p_term, 2);
        reveal_with_fuel(crate::parser::p_term_tail, 2);
        assert((f3 - 1) as nat == f4 && (f4 - 1) as nat == f5 && (f5 - 1) as nat == f6);
    }
    assert(spec_parse(toks, fp) == PStep::<Ast>::Parsed(Ast::Program(seq![st]), 5nat)) by {
        reveal_with_fuel(crate::parser::p_stmt_list, 3);
        reveal_with_fuel(crate::parser::p_stmt, 2);
        assert((f1 - 1) as nat == f2 && (f2 - 1) as nat == f3);
        assert(seq![st] + Seq::<Ast>::empty() =~= seq![st]);
    }
    let env0 = Map::<Seq<char>, Ast>::empty();
    let out0 = Seq::<Seq<char>>::empty();
    let gi = INTERP_FUEL as nat;
    let g1 = (gi - 1) as nat;
    let g2 = (gi - 2) as nat;
    let g3 = (gi - 3) as nat;
    assert(eval_expr_s(env0, un, g2) == EvalStep::Value(Ast::Number(-(n1 + n2)))) by {
        reveal_with_fuel(crate::interpreter::eval_expr_s, 3);
        assert((g2 - 1) as nat == g3);
    }
    assert(run_stmt_s(env0, out0, Ast::Program(seq![st]), gi) == StepOut::Done(env0, seq![
        dec_int_str(-(n1 + n2)),
    ])) by {
        reveal_with_fuel(crate::interpreter::run_stmt_s, 3);
        reveal_with_fuel(crate::interpreter::run_seq_s, 3);
        assert((g1 - 1) as nat == g2);
        assert(seq![st].drop_first() =~= Seq::<Ast>::empty());
        assert(out0.push(dec_int_str(-(n1 + n2))) =~= seq![dec_int_str(-(n1 + n2))]);
    }
}

/// Declare before use: assigning to a name with no prior declaration is a
/// fatal `UndefinedVariable` error, and nothing is printed by the
/// statement — the output is exactly what it was before it.
pub proof fn lemma_assign_undeclared(
    env: Map<Seq<char>, Ast>,
    out: Seq<Seq<char>>,
    name: Seq<char>,
    e: Ast,
    fuel: nat,
)
    requires
        !env.contains_key(name),
        fuel >= 1,
        eval_expr_s(env, e, (fuel - 1) as nat) matches EvalStep::Value(_),
    ensures
        run_stmt_s(env, out, Ast::VariableAssignment(name, Box::new(e)), fuel) == StepOut::Failed(
            RtErr::UndefinedVariable(name),
            out,
        ),
{
}

/// A conditional with a true condition executes its body, once, against
/// the same environment and output.
pub proof fn lemma_if_true(
    env: Map<Seq<char>, Ast>,
    out: Seq<Seq<char>>,
    body: Seq<Ast>,
    fuel: nat,
)
    requires
        fuel >= 2,
    ensures
        run_stmt_s(env, out, Ast::If(Box::new(Ast::Boolean(true)), body), fuel) == run_seq_s(
            env,
            out,
            body,
            (fuel - 1) as nat,
        ),
{
    reveal_with_fuel(crate::interpreter::eval_expr_s, 2);
}

/// A conditional with a false condition does nothing: the environment and
/// the output are left exactly as they were.
pub proof fn lemma_if_false(
    env: Map<Seq<char>, Ast>,
    out: Seq<Seq<char>>,
    body: Seq<Ast>,
    fuel: nat,
)
    requires
        fuel >= 2,
    ensures
        run_stmt_s(env, out, Ast::If(Box::new(Ast::Boolean(false)), body), fuel) == StepOut::Done(
            env,
            out,
        ),
{
    reveal_with_fuel(crate::interpreter::eval_expr_s, 2);
}

/// `&` and `|` always evaluate both operands: even when the left operand
/// alone would determine the result (`false` for `&`, `true` for `|`), an
/// error in the right operand still aborts the run — there is no
/// short-circuit.
pub proof fn lemma_no_short_circuit(
    env: Map<Seq<char>, Ast>,
    l: Ast,
    r: Ast,
    op: Tok,
    b: bool,
    err: RtErr,
    fuel: nat,
)
    requires
        op == Tok::And || op == Tok::Or,
        fuel >= 1,
        eval_expr_s(env, l, (fuel - 1) as nat) == EvalStep::Value(Ast::Boolean(b)),
        eval_expr_s(env, r, (fuel - 1) as nat) == EvalStep::Failed(err),
    ensures
        eval_expr_s(env, Ast::Binary(Box::new(l), op, Box::new(r)), fuel) == EvalStep::Failed(err),
{
}

} // verus!
