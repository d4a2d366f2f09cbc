use vstd::prelude::*;

use crate::environment::Val;
use crate::environment::arity_s;
use crate::environment::callable_s;
use crate::environment::equal_vals;
use crate::environment::truthy_s;
use crate::expression::Expr;
use crate::semantics::NativeRegistry;
use crate::semantics::OpOut;
use crate::semantics::State;
use crate::semantics::apply_binary_s;
use crate::semantics::arity_msg;
use crate::semantics::bind_params_s;
use crate::semantics::call_s;
use crate::semantics::eval_expr_s;
use crate::semantics::eval_stmt_s;
use crate::semantics::exec_block_s;
use crate::semantics::finish_call_s;
use crate::semantics::lemma_bind_params_wf;
use crate::semantics::lemma_exec_block;
use crate::semantics::lemma_push_env_wf;
use crate::semantics::stmt_ok;
use crate::semantics::val_ok;
use crate::semantics::vals_ok;
use crate::statement::Stmt;
use crate::token::Token;
use crate::token::TokenType;

verus! {

/// Scoping: running a block statement restores the scope that was
/// current, and leaves the set of names bound in every scope that
/// existed before the block unchanged — a variable defined inside the
/// block is not visible after it exits.
pub proof fn lemma_block_scoping<Reg: NativeRegistry>(reg: &Reg, st: State, s: Stmt, fuel: nat)
    requires
        st.wf(),
        stmt_ok(s),
        s is Block,
    ensures
        ({
            let (st1, c) = eval_stmt_s(reg, st, s, fuel);
            &&& st1.cur == st.cur
            &&& forall|j: int|
                0 <= j < st.envs.len() ==> (#[trigger] st1.envs[j]).names.dom()
                    == st.envs[j].names.dom()
        }),
{
    if fuel > 0 {
        let f = (fuel - 1) as nat;
        match s {
            Stmt::Block { statements } => {
                let idx = st.envs.len() as int;
                lemma_push_env_wf(st, st.cur);
                let stp = st.push_env(st.cur);
                lemma_exec_block(reg, stp, statements@, idx, f);
                let (st1, c) = exec_block_s(reg, stp, statements@, idx, f);
                assert forall|j: int| 0 <= j < st.envs.len() implies (#[trigger] st1.envs[j]).names.dom()
                    == st.envs[j].names.dom() by {
                    assert(st1.envs[j].names.dom() == stp.envs[j].names.dom());
                }
            },
            _ => {},
        }
    }
}

/// Scoping: an assignment searches outward and passes over any scope
/// that does not bind the name, so assigning to an outer variable from
/// an inner scope reaches the outer binding.
pub proof fn lemma_assign_skips_unbinding_scope(st: State, i: int, name: Seq<char>, v: Val, p: int)
    requires
        0 <= i < st.envs.len(),
        !st.envs[i].names.contains_key(name),
        st.envs[i].parent == Some(p),
        0 <= p < i,
    ensures
        st.assign_in(i, name, v) == st.assign_in(p, name, v),
{
}

/// Scoping: when a scope does bind the name, assignment overwrites
/// exactly that binding with the new value and touches nothing else —
/// the mutation is observable through every holder of that scope.
pub proof fn lemma_assign_hits_binding_scope(st: State, i: int, name: Seq<char>, v: Val)
    requires
        0 <= i < st.envs.len(),
        st.envs[i].names.contains_key(name),
    ensures
        ({
            let st1 = st.assign_in(i, name, v)->Some_0;
            &&& st.assign_in(i, name, v) is Some
            &&& st1.envs[i].names[name] == v
            &&& forall|j: int| 0 <= j < st.envs.len() && j != i ==> #[trigger] st1.envs[j] == st.envs[j]
            &&& forall|k: Seq<char>| k != name ==> #[trigger] st1.envs[i].names.contains_key(k)
                == st.envs[i].names.contains_key(k)
            &&& forall|k: Seq<char>| k != name && st.envs[i].names.contains_key(k)
                ==> #[trigger] st1.envs[i].names[k] == st.envs[i].names[k]
        }),
{
}

/// Closures share mutable state: entering a function pushes a fresh
/// scope whose parent is the scope captured at the closure's definition
/// site — not the scope current at the call site — and that link is
/// still in place when the call returns. Two calls of the same closure
/// therefore read and mutate the very same captured scope.
pub proof fn lemma_call_uses_captured_env<Reg: NativeRegistry>(
    reg: &Reg,
    st: State,
    c: Val,
    args: Seq<Val>,
    fuel: nat,
)
    requires
        st.wf(),
        c is Fun,
        val_ok(c, st.envs.len() as int),
        vals_ok(args, st.envs.len() as int),
        args.len() == arity_s(c),
        fuel > 0,
    ensures
        ({
            let (st1, r) = call_s(reg, st, c, args, fuel);
            &&& st1.envs.len() > st.envs.len()
            &&& st1.envs[st.envs.len() as int].parent == Some(c->env)
        }),
{
    let f = (fuel - 1) as nat;
    match c {
        Val::Fun { params, body, env, .. } => {
            let idx = st.envs.len() as int;
            lemma_push_env_wf(st, env);
            let stp = st.push_env(env);
            assert(vals_ok(args, stp.envs.len() as int)) by {
                assert forall|k: int| 0 <= k < args.len() implies val_ok(
                    #[trigger] args[k],
                    stp.envs.len() as int,
                ) by {
                    assert(val_ok(args[k], st.envs.len() as int));
                }
            }
            lemma_bind_params_wf(stp, idx, params, args);
            let st1 = bind_params_s(stp, idx, params, args);
            assert(st1.envs[idx].parent == Some(env));
            lemma_exec_block(reg, st1, body, idx, f);
            let (st2, ctl) = exec_block_s(reg, st1, body, idx, f);
            assert(st2.envs[idx].parent == st1.envs[idx].parent);
        },
        _ => {},
    }
}

/// Truthiness: a value is falsy exactly when it is Nil, the
/// uninitialized sentinel, or the boolean `false` itself. Numeric zero
/// and the empty string are truthy.
pub proof fn lemma_truthiness(v: Val)
    ensures
        truthy_s(v) <==> !(v is Nil || v is Uninit || v == Val::Bool(false)),
{
}

/// The left operand of a logical expression.
pub open spec fn left_operand(e: Expr) -> Expr {
    match e {
        Expr::Logical { left, .. } => *left,
        _ => e,
    }
}

/// The operator token kind of a logical expression.
pub open spec fn logical_operator(e: Expr) -> TokenType {
    match e {
        Expr::Logical { operator, .. } => operator.token_type,
        _ => TokenType::And,
    }
}

/// Short-circuit evaluation of `and`: when the left operand comes out
/// falsy, the whole expression is exactly the evaluation of the left
/// operand — same resulting state, and the left value as result. The
/// right operand is never evaluated, so none of its effects or faults
/// can occur.
pub proof fn lemma_and_short_circuit<Reg: NativeRegistry>(reg: &Reg, st: State, e: Expr, fuel: nat)
    requires
        fuel > 0,
        e is Logical,
        logical_operator(e) != TokenType::Or,
        ({
            let (st1, r) = eval_expr_s(reg, st, left_operand(e), (fuel - 1) as nat);
            r matches Some(v) && !truthy_s(v)
        }),
    ensures
        eval_expr_s(reg, st, e, fuel) == eval_expr_s(reg, st, left_operand(e), (fuel - 1) as nat),
{
}

/// Short-circuit evaluation of `or`: when the left operand comes out
/// truthy, the whole expression is exactly the evaluation of the left
/// operand; the right operand is never evaluated.
pub proof fn lemma_or_short_circuit<Reg: NativeRegistry>(reg: &Reg, st: State, e: Expr, fuel: nat)
    requires
        fuel > 0,
        e is Logical,
        logical_operator(e) == TokenType::Or,
        ({
            let (st1, r) = eval_expr_s(reg, st, left_operand(e), (fuel - 1) as nat);
            r matches Some(v) && truthy_s(v)
        }),
    ensures
        eval_expr_s(reg, st, e, fuel) == eval_expr_s(reg, st, left_operand(e), (fuel - 1) as nat),
{
}

/// Type errors on mixed arithmetic: `-`, `*`, `/` and the orderings
/// applied to operands that are not two numbers (and not two strings)
/// fault with "Operands must be numbers." — no coercion is attempted.
pub proof fn lemma_mixed_arithmetic_faults(t: TokenType, l: Val, r: Val)
    requires
        !(l is Num && r is Num),
        !(l is Strv && r is Strv),
        t == TokenType::Minus || t == TokenType::Star || t == TokenType::Slash || t
            == TokenType::Greater || t == TokenType::GreaterEqual || t == TokenType::Less || t
            == TokenType::LessEqual,
    ensures
        apply_binary_s(t, l, r) == OpOut::Bad("Operands must be numbers."@),
{
}

/// Arity mismatch: a call whose argument count differs from the
/// callee's declared arity reports it at the call's closing paren and
/// the call expression yields Nil; the callable is never entered.
pub proof fn lemma_arity_mismatch<Reg: NativeRegistry>(
    reg: &Reg,
    st: State,
    paren: Token,
    c: Val,
    args: Seq<Val>,
    fuel: nat,
)
    requires
        callable_s(c),
        args.len() != arity_s(c),
    ensures
        finish_call_s(reg, st, paren, c, args, fuel) == (
            st.fail(paren, arity_msg(arity_s(c), args.len() as int)),
            Some(Val::Nil),
        ),
{
}

/// The arity-mismatch message for a one-parameter callable given two
/// arguments reads exactly "Expected 1 arguments, but got 2.".
pub proof fn lemma_arity_message_one_two()
    ensures
        arity_msg(1, 2) == "Expected 1 arguments, but got 2."@,
{
    reveal_strlit("Expected ");
    reveal_strlit(" arguments, but got ");
    reveal_strlit(".");
    reveal_strlit("Expected 1 arguments, but got 2.");
    assert(arity_msg(1, 2) =~= "Expected 1 arguments, but got 2."@);
}

/// Equality across variants: values of different variants are never
/// equal — `1 == "1"` is false, and Nil equals only Nil, so `nil` does
/// not equal `false` either. No coercion takes part in equality.
pub proof fn lemma_no_cross_variant_equality(a: Val, b: Val)
    requires
        !(a is Num && b is Num),
        !(a is Bool && b is Bool),
        !(a is Strv && b is Strv),
        !(a is Nil && b is Nil),
        !(a is Uninit && b is Uninit),
    ensures
        !equal_vals(a, b),
{
}

} // verus!
