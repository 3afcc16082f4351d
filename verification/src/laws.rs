use crate::ast::{SpecExpr, SpecFunction, SpecVal, Type, VarToken, Op};
use crate::context::{ctx_get, ctx_has, ctx_insert, lemma_ctx_insert_get};
use crate::interpreter::{
    spec_eval, spec_eval_args, spec_eval_if, spec_eval_stmts, spec_eval_while, stack_insert,
    SpecEvalErr, StackV,
};
use crate::type_checker::{spec_tc, spec_tc_bin, msg_no_impl, msg_bin_wrap, TStackV};
use vstd::prelude::*;

verus! {

// ---------------------------------------------------------------------------
// Laws of the scoped environment and of the two walks over the syntax
// tree. Each is stated over the spec functions that the executable
// functions' contracts use.
// ---------------------------------------------------------------------------

/// A binding made in a nested scope is invisible once that scope is
/// dropped, and shadowing an outer binding never corrupts it: after the
/// nested scope goes away, every name resolves exactly as it did before
/// the scope was pushed.
pub proof fn lemma_nested_scope_isolated<V>(
    c: Seq<Seq<(Seq<char>, V)>>,
    x: Seq<char>,
    v: V,
    k: Seq<char>,
)
    requires
        c.len() > 0,
    ensures
        ctx_get(ctx_insert(c.push(Seq::empty()), x, v), x) == Some(v),
        ctx_insert(c.push(Seq::empty()), x, v).drop_last() =~= c,
        ctx_get(ctx_insert(c.push(Seq::empty()), x, v).drop_last(), k) == ctx_get(c, k),
{
    let c1 = c.push(Seq::<(Seq<char>, V)>::empty());
    lemma_ctx_insert_get(c1, x, v, x);
    assert(ctx_insert(c1, x, v).drop_last() =~= c);
}

/// Assignment to an undeclared name fails with `NotFound` and leaves the
/// stack unchanged: for a plain assignment of a literal to a name the
/// current context does not bind, the evaluator reports the missing
/// binding.
pub proof fn lemma_assign_undeclared(
    x: Seq<char>,
    n: i32,
    fns: Seq<SpecFunction>,
    st: StackV,
    fuel: nat,
)
    requires
        st.len() > 0,
        !ctx_has(st.last(), x),
    ensures
        spec_eval(
            SpecExpr::VarOp(
                Box::new(SpecExpr::Var(x)),
                Op::VarOp(VarToken::Assign),
                Box::new(SpecExpr::Num(n)),
            ),
            fns,
            st,
            fuel,
        ) == (
            Err::<SpecVal, SpecEvalErr>(SpecEvalErr::NotFound("Value not found in context."@)),
            st,
        ),
{
    assert(spec_eval(SpecExpr::Num(n), fns, st, fuel) == (
        Ok::<SpecVal, SpecEvalErr>(SpecVal::Num(n)),
        st,
    ));
}

/// Redeclaring a name with `let` in the same scope overwrites it for
/// every later lookup: after the declaration, the name resolves to the
/// new value, and every other name keeps its binding.
pub proof fn lemma_let_redeclaration_overwrites(
    x: Seq<char>,
    t: Type,
    n: i32,
    k: Seq<char>,
    fns: Seq<SpecFunction>,
    st: StackV,
    fuel: nat,
)
    requires
        st.len() > 0,
        st.last().len() > 0,
    ensures
        spec_eval(
            SpecExpr::Let(Box::new(SpecExpr::Var(x)), t, Box::new(SpecExpr::Num(n))),
            fns,
            st,
            fuel,
        ) == (Ok::<SpecVal, SpecEvalErr>(SpecVal::Num(n)), stack_insert(st, x, SpecVal::Num(n))),
        ctx_get(stack_insert(st, x, SpecVal::Num(n)).last(), x) == Some(SpecVal::Num(n)),
        k != x ==> ctx_get(stack_insert(st, x, SpecVal::Num(n)).last(), k) == ctx_get(
            st.last(),
            k,
        ),
{
    assert(spec_eval(SpecExpr::Num(n), fns, st, fuel) == (
        Ok::<SpecVal, SpecEvalErr>(SpecVal::Num(n)),
        st,
    ));
    assert(crate::interpreter::spec_assign_var(
        SpecExpr::Var(x),
        SpecExpr::Num(n),
        fns,
        st,
        fuel,
    ) == (Ok::<SpecVal, SpecEvalErr>(SpecVal::Num(n)), stack_insert(st, x, SpecVal::Num(n))));
    lemma_ctx_insert_get(st.last(), x, SpecVal::Num(n), x);
    lemma_ctx_insert_get(st.last(), x, SpecVal::Num(n), k);
    assert(stack_insert(st, x, SpecVal::Num(n)).last() == ctx_insert(
        st.last(),
        x,
        SpecVal::Num(n),
    ));
}

/// The checker rejects a binary operation whose operands do not share one
/// primitive type — operand kinds are never coerced — and rejects an
/// operator applied outside its family: an arithmetic or assignment
/// operator on two `Bool`s, or a boolean or assignment operator on two
/// `Int32`s.
pub proof fn lemma_tc_rejects_mixed_operands(
    l: SpecExpr,
    op: Op,
    r: SpecExpr,
    fns: Seq<SpecFunction>,
    st: TStackV,
)
    ensures
        ({
            let (lr, st1) = spec_tc(l, fns, st);
            let (rr, st2) = spec_tc(r, fns, st1);
            &&& (lr matches Ok(lt) && rr matches Ok(rt) && lt != rt ==> spec_tc_bin(
                l,
                op,
                r,
                fns,
                st,
            ).0 == Err::<Type, Seq<char>>(msg_bin_wrap(msg_no_impl(lr->Ok_0, op, rr->Ok_0))))
            &&& (lr == Ok::<Type, Seq<char>>(Type::Bool) && rr == Ok::<Type, Seq<char>>(Type::Bool)
                && (op is MathOp || op is VarOp) ==> spec_tc_bin(l, op, r, fns, st).0 is Err)
            &&& (lr == Ok::<Type, Seq<char>>(Type::Int32) && rr == Ok::<Type, Seq<char>>(
                Type::Int32,
            ) && (op is BoolOp || op is VarOp) ==> spec_tc_bin(l, op, r, fns, st).0 is Err)
        }),
{
}

/// Function call arguments are evaluated left to right, each exactly
/// once: the argument list's meaning is the first argument's evaluation
/// followed by the remaining arguments' evaluation in the state the first
/// one left behind, whatever the callee does with its parameters.
pub proof fn lemma_args_left_to_right(
    a: SpecExpr,
    rest: Seq<SpecExpr>,
    fns: Seq<SpecFunction>,
    st: StackV,
    fuel: nat,
)
    ensures
        spec_eval_args(seq![a] + rest, fns, st, fuel) == ({
            let (r1, st1) = spec_eval(a, fns, st, fuel);
            match r1 {
                Err(er) => (Err::<Seq<SpecVal>, SpecEvalErr>(er), st1),
                Ok(v) => {
                    let (rrest, st2) = spec_eval_args(rest, fns, st1, fuel);
                    match rrest {
                        Err(er) => (Err::<Seq<SpecVal>, SpecEvalErr>(er), st2),
                        Ok(vs) => (Ok::<Seq<SpecVal>, SpecEvalErr>(seq![v] + vs), st2),
                    }
                },
            }
        }),
{
    let args = seq![a] + rest;
    assert(args.len() == 1 + rest.len());
    assert(args.first() == a);
    assert(args.drop_first() =~= rest);
}

/// A `Return` stops a statement list at once: whatever statements follow
/// the prefix that produced the `Return`, they are never evaluated, and
/// the list's result is the prefix's result.
pub proof fn lemma_return_skips_rest(
    pre: Seq<SpecExpr>,
    post: Seq<SpecExpr>,
    fns: Seq<SpecFunction>,
    st: StackV,
    fuel: nat,
)
    requires
        spec_eval_stmts(pre, fns, st, fuel).0 matches Ok(v) && v is Return,
    ensures
        spec_eval_stmts(pre + post, fns, st, fuel) == spec_eval_stmts(pre, fns, st, fuel),
    decreases pre.len(),
{
    assert(pre.len() > 0);
    let both = pre + post;
    assert(both.first() == pre.first());
    assert(both.drop_first() =~= pre.drop_first() + post);
    let (r1, st1) = spec_eval(pre.first(), fns, st, fuel);
    match r1 {
        Err(_) => {},
        Ok(SpecVal::Return(_)) => {},
        Ok(_) => {
            if pre.len() == 1 {
            } else {
                lemma_return_skips_rest(pre.drop_first(), post, fns, st1, fuel);
                if post.len() == 0 {
                    assert(both.drop_first() =~= pre.drop_first());
                }
            }
        },
    }
}

/// A `Return` from a loop body short-circuits the loop itself: the loop
/// neither runs another round nor touches the value, it hands the
/// sentinel straight on.
pub proof fn lemma_return_stops_loop(
    c: SpecExpr,
    b: Seq<SpecExpr>,
    fns: Seq<SpecFunction>,
    st: StackV,
    fuel: nat,
)
    requires
        spec_eval_if(c, b, fns, st, fuel).0 matches Ok(v) && v is Return,
    ensures
        spec_eval_while(c, b, fns, st, fuel) == spec_eval_if(c, b, fns, st, fuel),
{
}

} // verus!
