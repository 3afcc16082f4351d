use crate::ast::{
    Block, BoolToken, Expr, Function, FunctionCall, Functions, MathToken, Op, RelToken, SpecExpr,
    SpecFunction, SpecFunctionCall, SpecParam, SpecVal, Value, VarToken, sz_expr, sz_exprs,
    lemma_sz_expr_pos, lemma_sz_exprs_elem, lemma_exprs_deep_elemwise, exprs_deep, expr_deep,
};
use crate::context;
use crate::context::{
    ContextStack, ctx_get, ctx_has, ctx_insert, ctx_update, spec_get_fn, get_fn,
    lemma_ctx_update_get, lemma_ctx_insert_get,
};
use vstd::prelude::*;

verus! {

pub type EvalRes<T> = Result<T, EvalErr>;

/// The interpreter's environment: one context per active call, over values.
pub type FnContext = ContextStack<Value>;

pub type Context = context::Context<Value>;

/// Deep model of one call's context over values.
pub type CtxV = Seq<Seq<(Seq<char>, SpecVal)>>;

/// Deep model of the whole context stack.
pub type StackV = Seq<CtxV>;

/// A runtime failure; all are recoverable `Result` values.
#[derive(Debug, PartialEq, Eq)]
pub enum EvalErr {
    NotFound(String),
    NotImplemented,
    TypeMismatch(String),
    WrongOp(String),
    WrongType(String),
    OutOfFuel,
}

/// Deep model of a runtime failure.
pub enum SpecEvalErr {
    NotFound(Seq<char>),
    NotImplemented,
    TypeMismatch(Seq<char>),
    WrongOp(Seq<char>),
    WrongType(Seq<char>),
    OutOfFuel,
}

impl DeepView for EvalErr {
    type V = SpecEvalErr;

    open spec fn deep_view(&self) -> SpecEvalErr {
        match self {
            EvalErr::NotFound(s) => SpecEvalErr::NotFound(s@),
            EvalErr::NotImplemented => SpecEvalErr::NotImplemented,
            EvalErr::TypeMismatch(s) => SpecEvalErr::TypeMismatch(s@),
            EvalErr::WrongOp(s) => SpecEvalErr::WrongOp(s@),
            EvalErr::WrongType(s) => SpecEvalErr::WrongType(s@),
            EvalErr::OutOfFuel => SpecEvalErr::OutOfFuel,
        }
    }
}

/// Deep model of an evaluation result.
pub open spec fn res_deep(r: EvalRes<Value>) -> Result<SpecVal, SpecEvalErr> {
    match r {
        Ok(v) => Ok(v.deep_view()),
        Err(e) => Err(e.deep_view()),
    }
}

/// The stack is fit for evaluation: if a call is active, its context has a
/// scope to write into.
pub open spec fn stack_ok(st: StackV) -> bool {
    st.len() > 0 ==> st.last().len() > 0
}

// ---------------------------------------------------------------------------
// Stack editing at the current frame, as the evaluator uses it.
// ---------------------------------------------------------------------------

pub open spec fn stack_update(st: StackV, k: Seq<char>, v: SpecVal) -> StackV {
    st.update(st.len() - 1, ctx_update(st.last(), k, v))
}

pub open spec fn stack_insert(st: StackV, k: Seq<char>, v: SpecVal) -> StackV {
    st.update(st.len() - 1, ctx_insert(st.last(), k, v))
}

pub open spec fn stack_push_scope(st: StackV) -> StackV {
    st.update(st.len() - 1, st.last().push(Seq::empty()))
}

pub open spec fn stack_drop_scope(st: StackV) -> StackV {
    if st.len() > 0 && st.last().len() > 0 {
        st.update(st.len() - 1, st.last().drop_last())
    } else {
        st
    }
}

/// The scope a call starts from: each parameter bound to its argument,
/// in parameter order.
pub open spec fn bind_params(ps: Seq<SpecParam>, vs: Seq<SpecVal>) -> Seq<(Seq<char>, SpecVal)> {
    Seq::new(ps.len(), |i: int| (ps[i].name, vs[i]))
}

// ---------------------------------------------------------------------------
// Operator semantics. Arithmetic wraps on overflow; division and modulo
// fail on a zero divisor and on the one overflowing quotient.
// ---------------------------------------------------------------------------

/// The truncating quotient, exactly as the machine division computes it.
pub open spec fn trunc_div(x: int, d: int) -> int {
    if x == 0 {
        0
    } else if x > 0 && d > 0 {
        x / d
    } else if x < 0 && d < 0 {
        ((x * -1) / (d * -1))
    } else if x < 0 {
        ((x * -1) / d) * -1
    } else {
        (x / (d * -1)) * -1
    }
}

/// The truncating remainder, exactly as the machine remainder computes it.
pub open spec fn trunc_rem(x: int, d: int) -> int {
    if x == 0 {
        0
    } else if x > 0 && d > 0 {
        x % d
    } else if x < 0 && d < 0 {
        ((x * -1) % (d * -1)) * -1
    } else if x < 0 {
        ((x * -1) % d) * -1
    } else {
        x % (d * -1)
    }
}

/// What a binary operator yields on two machine integers.
pub open spec fn spec_eval_i32(l: i32, op: Op, r: i32) -> Result<SpecVal, SpecEvalErr> {
    match op {
        Op::MathOp(MathToken::Division) => {
            if r == 0 || trunc_div(l as int, r as int) < i32::MIN || trunc_div(
                l as int,
                r as int,
            ) > i32::MAX {
                Err(SpecEvalErr::WrongOp("Division by zero or overflow."@))
            } else {
                Ok(SpecVal::Num(trunc_div(l as int, r as int) as i32))
            }
        },
        Op::MathOp(MathToken::Modulo) => {
            if r == 0 || (l == i32::MIN && r == -1) || trunc_rem(l as int, r as int) < i32::MIN
                || trunc_rem(l as int, r as int) > i32::MAX {
                Err(SpecEvalErr::WrongOp("Division by zero or overflow."@))
            } else {
                Ok(SpecVal::Num(trunc_rem(l as int, r as int) as i32))
            }
        },
        Op::MathOp(MathToken::Multiply) => Ok(
            SpecVal::Num(vstd::wrapping::i32_specs::wrapping_mul(l, r)),
        ),
        Op::MathOp(MathToken::Plus) => Ok(
            SpecVal::Num(vstd::wrapping::i32_specs::wrapping_add(l, r)),
        ),
        Op::MathOp(MathToken::Minus) => Ok(
            SpecVal::Num(vstd::wrapping::i32_specs::wrapping_sub(l, r)),
        ),
        Op::RelOp(RelToken::Equal) => Ok(SpecVal::Bool(l == r)),
        Op::RelOp(RelToken::Geq) => Ok(SpecVal::Bool(l > r)),
        Op::RelOp(RelToken::Leq) => Ok(SpecVal::Bool(l < r)),
        Op::RelOp(RelToken::Neq) => Ok(SpecVal::Bool(l != r)),
        _ => Err(SpecEvalErr::WrongOp("Not an i32 operator."@)),
    }
}

/// What a binary operator yields on two booleans.
pub open spec fn spec_eval_bool(l: bool, op: Op, r: bool) -> Result<SpecVal, SpecEvalErr> {
    match op {
        Op::BoolOp(BoolToken::And) => Ok(SpecVal::Bool(l && r)),
        Op::BoolOp(BoolToken::Or) => Ok(SpecVal::Bool(l || r)),
        Op::RelOp(RelToken::Equal) => Ok(SpecVal::Bool(l == r)),
        Op::RelOp(RelToken::Geq) => Ok(SpecVal::Bool(l && !r)),
        Op::RelOp(RelToken::Leq) => Ok(SpecVal::Bool(!l && r)),
        Op::RelOp(RelToken::Neq) => Ok(SpecVal::Bool(l != r)),
        _ => Err(SpecEvalErr::WrongOp("Not a boolean operator."@)),
    }
}

/// A variable operation other than plain assignment: read the current
/// `Int32` binding, combine it with the operand, write it back.
pub open spec fn spec_var_op(x: Seq<char>, op: Op, v: SpecVal, st: StackV) -> (Result<
    SpecVal,
    SpecEvalErr,
>, StackV) {
    if st.len() == 0 {
        (Err(SpecEvalErr::NotFound("No context found in FnContext."@)), st)
    } else {
        match ctx_get(st.last(), x) {
            None => (Err(SpecEvalErr::NotFound("Key not found in context scopes"@)), st),
            Some(SpecVal::Num(old_val)) => match v {
                SpecVal::Num(d) => match op {
                    Op::VarOp(VarToken::PlusEq) => {
                        let nv = SpecVal::Num(vstd::wrapping::i32_specs::wrapping_add(old_val, d));
                        (Ok(nv), stack_update(st, x, nv))
                    },
                    Op::VarOp(VarToken::MinEq) => {
                        let nv = SpecVal::Num(vstd::wrapping::i32_specs::wrapping_sub(old_val, d));
                        (Ok(nv), stack_update(st, x, nv))
                    },
                    Op::VarOp(VarToken::MulEq) => {
                        let nv = SpecVal::Num(vstd::wrapping::i32_specs::wrapping_mul(old_val, d));
                        (Ok(nv), stack_update(st, x, nv))
                    },
                    _ => (Err(SpecEvalErr::WrongOp("Not a variable operator."@)), st),
                },
                _ => (Err(SpecEvalErr::WrongType("Variable operation on a value that is not an i32."@)), st),
            },
            Some(_) => (Err(SpecEvalErr::WrongType("Variable operation on a value that is not an i32."@)), st),
        }
    }
}

// ---------------------------------------------------------------------------
// The big-step evaluator: the mathematical meaning of every expression,
// threading the context stack and a fuel bound on loop iterations and
// calls.
// ---------------------------------------------------------------------------

pub open spec fn spec_eval(e: SpecExpr, fns: Seq<SpecFunction>, st: StackV, fuel: nat) -> (Result<
    SpecVal,
    SpecEvalErr,
>, StackV)
    decreases fuel, sz_expr(e), 1int,
{
    match e {
        SpecExpr::Num(n) => (Ok(SpecVal::Num(n)), st),
        SpecExpr::Bool(b) => (Ok(SpecVal::Bool(b)), st),
        SpecExpr::Var(x) => {
            if st.len() == 0 {
                (Err(SpecEvalErr::NotFound("No context found in FnContext."@)), st)
            } else {
                match ctx_get(st.last(), x) {
                    Some(v) => (Ok(v), st),
                    None => (Err(SpecEvalErr::NotFound("Key not found in context scopes"@)), st),
                }
            }
        },
        SpecExpr::BinOp(l, op, r) => spec_eval_bin(*l, op, *r, fns, st, fuel),
        SpecExpr::Let(var, _t, e2) => spec_assign_var(*var, *e2, fns, st, fuel),
        SpecExpr::VarOp(var, op, e2) => {
            match *var {
                SpecExpr::Var(x) => {
                    let (rv, st1) = spec_eval(*e2, fns, st, fuel);
                    match rv {
                        Err(er) => (Err(er), st1),
                        Ok(v) => {
                            if op == Op::VarOp(VarToken::Assign) {
                                if st1.len() == 0 {
                                    (
                                        Err(
                                            SpecEvalErr::NotFound(
                                                "No context found in FnContext."@,
                                            ),
                                        ),
                                        st1,
                                    )
                                } else if ctx_has(st1.last(), x) {
                                    (Ok(v), stack_update(st1, x, v))
                                } else {
                                    (
                                        Err(SpecEvalErr::NotFound("Value not found in context."@)),
                                        st1,
                                    )
                                }
                            } else {
                                spec_var_op(x, op, v, st1)
                            }
                        },
                    }
                },
                _ => (Err(SpecEvalErr::WrongType("Assignment target is not a variable."@)), st),
            }
        },
        SpecExpr::If(c, b) => spec_eval_if(*c, b, fns, st, fuel),
        SpecExpr::IfElse(_c, _b) => (Err(SpecEvalErr::NotImplemented), st),
        SpecExpr::While(c, b) => spec_eval_while(*c, b, fns, st, fuel),
        SpecExpr::FuncCall(fc) => spec_eval_call(fc, fns, st, fuel),
        SpecExpr::Return(e2) => {
            let (rv, st1) = spec_eval(*e2, fns, st, fuel);
            match rv {
                Err(er) => (Err(er), st1),
                Ok(v) => (Ok(SpecVal::Return(Box::new(v))), st1),
            }
        },
    }
}

/// A declaration: the initializer's value written into the innermost
/// scope under the declared name, shadowing an earlier one.
pub open spec fn spec_assign_var(
    var: SpecExpr,
    e2: SpecExpr,
    fns: Seq<SpecFunction>,
    st: StackV,
    fuel: nat,
) -> (Result<SpecVal, SpecEvalErr>, StackV)
    decreases fuel, sz_expr(var) + sz_expr(e2), 1int,
    via spec_assign_var_dec
{
    match var {
        SpecExpr::Var(x) => {
            let (rv, st1) = spec_eval(e2, fns, st, fuel);
            match rv {
                Err(er) => (Err(er), st1),
                Ok(v) => {
                    if st1.len() == 0 {
                        (Err(SpecEvalErr::NotFound("No context found in FnContext."@)), st1)
                    } else {
                        (Ok(v), stack_insert(st1, x, v))
                    }
                },
            }
        },
        _ => (Err(SpecEvalErr::WrongType("Assignment target is not a variable."@)), st),
    }
}

#[via_fn]
proof fn spec_assign_var_dec(
    var: SpecExpr,
    e2: SpecExpr,
    fns: Seq<SpecFunction>,
    st: StackV,
    fuel: nat,
) {
    lemma_sz_expr_pos(var);
    lemma_sz_expr_pos(e2);
}

/// Both operands evaluated left to right, then the operator applied to
/// operands of one kind.
pub open spec fn spec_eval_bin(
    l: SpecExpr,
    op: Op,
    r: SpecExpr,
    fns: Seq<SpecFunction>,
    st: StackV,
    fuel: nat,
) -> (Result<SpecVal, SpecEvalErr>, StackV)
    decreases fuel, sz_expr(l) + sz_expr(r), 1int,
    via spec_eval_bin_dec
{
    let (lr, st1) = spec_eval(l, fns, st, fuel);
    match lr {
        Err(er) => (Err(er), st1),
        Ok(lv) => {
            let (rr, st2) = spec_eval(r, fns, st1, fuel);
            match rr {
                Err(er) => (Err(er), st2),
                Ok(rv) => match (lv, rv) {
                    (SpecVal::Num(a), SpecVal::Num(b)) => (spec_eval_i32(a, op, b), st2),
                    (SpecVal::Bool(a), SpecVal::Bool(b)) => (spec_eval_bool(a, op, b), st2),
                    _ => (
                        (
                            Err(
                                SpecEvalErr::TypeMismatch(
                                    "Can not evaluate an operation between a bool and an i32."@,
                                ),
                            ),
                            st2,
                        )
                    ),
                },
            }
        },
    }
}

#[via_fn]
proof fn spec_eval_bin_dec(
    l: SpecExpr,
    op: Op,
    r: SpecExpr,
    fns: Seq<SpecFunction>,
    st: StackV,
    fuel: nat,
) {
    lemma_sz_expr_pos(l);
    lemma_sz_expr_pos(r);
}

/// A conditional: a true condition runs the block in a fresh scope, a
/// false one yields `Bool(false)`.
pub open spec fn spec_eval_if(
    c: SpecExpr,
    b: Seq<SpecExpr>,
    fns: Seq<SpecFunction>,
    st: StackV,
    fuel: nat,
) -> (Result<SpecVal, SpecEvalErr>, StackV)
    decreases fuel, sz_expr(c) + sz_exprs(b), 2int,
    via spec_eval_if_dec
{
    let (cr, st1) = spec_eval(c, fns, st, fuel);
    match cr {
        Err(er) => (Err(er), st1),
        Ok(SpecVal::Bool(true)) => spec_eval_block(b, fns, st1, fuel),
        Ok(SpecVal::Bool(false)) => (Ok(SpecVal::Bool(false)), st1),
        Ok(_) => (
            (
                Err(
                    SpecEvalErr::WrongType(
                        "Cannot evaluate condition. Not a boolean expression."@,
                    ),
                ),
                st1,
            )
        ),
    }
}

#[via_fn]
proof fn spec_eval_if_dec(c: SpecExpr, b: Seq<SpecExpr>, fns: Seq<SpecFunction>, st: StackV, fuel: nat) {
    lemma_sz_expr_pos(c);
}

/// A loop: the conditional is run over and over until its condition is
/// false; a `Return` from the body stops it at once, any failure is
/// reported as a condition failure; each further round costs one fuel.
pub open spec fn spec_eval_while(
    c: SpecExpr,
    b: Seq<SpecExpr>,
    fns: Seq<SpecFunction>,
    st: StackV,
    fuel: nat,
) -> (Result<SpecVal, SpecEvalErr>, StackV)
    decreases fuel, sz_expr(c) + sz_exprs(b), 3int,
{
    let (ir, st1) = spec_eval_if(c, b, fns, st, fuel);
    match ir {
        Ok(SpecVal::Bool(false)) => (Ok(SpecVal::Bool(false)), st1),
        Ok(SpecVal::Return(v)) => (Ok(SpecVal::Return(v)), st1),
        Ok(_) => {
            if fuel == 0 {
                (Err(SpecEvalErr::OutOfFuel), st1)
            } else {
                spec_eval_while(c, b, fns, st1, (fuel - 1) as nat)
            }
        },
        Err(_) => (
            (
                Err(
                    SpecEvalErr::WrongType(
                        "Cannot evaluate condition. Not a boolean expression."@,
                    ),
                ),
                st1,
            )
        ),
    }
}

/// A statement list, in source order: the first failure aborts it, a
/// `Return` stops it and is handed on, and otherwise the last statement's
/// value is its value.
pub open spec fn spec_eval_stmts(
    stmts: Seq<SpecExpr>,
    fns: Seq<SpecFunction>,
    st: StackV,
    fuel: nat,
) -> (Result<SpecVal, SpecEvalErr>, StackV)
    decreases fuel, sz_exprs(stmts), 0int,
{
    if stmts.len() == 0 {
        (Err(SpecEvalErr::NotFound("No expressions found."@)), st)
    } else {
        let (r1, st1) = spec_eval(stmts.first(), fns, st, fuel);
        match r1 {
            Err(er) => (Err(er), st1),
            Ok(SpecVal::Return(v)) => (Ok(SpecVal::Return(v)), st1),
            Ok(v) => {
                if stmts.len() == 1 {
                    (Ok(v), st1)
                } else {
                    spec_eval_stmts(stmts.drop_first(), fns, st1, fuel)
                }
            },
        }
    }
}

/// A block: one fresh scope around its statement list, dropped on the way
/// out.
pub open spec fn spec_eval_block(
    b: Seq<SpecExpr>,
    fns: Seq<SpecFunction>,
    st: StackV,
    fuel: nat,
) -> (Result<SpecVal, SpecEvalErr>, StackV)
    decreases fuel, sz_exprs(b), 1int,
{
    if st.len() == 0 {
        (Err(SpecEvalErr::NotFound("No context found in FnContext."@)), st)
    } else {
        let (r1, st1) = spec_eval_stmts(b, fns, stack_push_scope(st), fuel);
        if st1.len() == 0 {
            (Err(SpecEvalErr::NotFound("No context found in FnContext."@)), st1)
        } else {
            (r1, stack_drop_scope(st1))
        }
    }
}

/// Argument expressions, left to right, each exactly once; the first
/// failure aborts the list.
pub open spec fn spec_eval_args(
    args: Seq<SpecExpr>,
    fns: Seq<SpecFunction>,
    st: StackV,
    fuel: nat,
) -> (Result<Seq<SpecVal>, SpecEvalErr>, StackV)
    decreases fuel, sz_exprs(args), 1int,
{
    if args.len() == 0 {
        (Ok(Seq::empty()), st)
    } else {
        let (r1, st1) = spec_eval(args.first(), fns, st, fuel);
        match r1 {
            Err(er) => (Err(er), st1),
            Ok(v) => {
                let (rrest, st2) = spec_eval_args(args.drop_first(), fns, st1, fuel);
                match rrest {
                    Err(er) => (Err(er), st2),
                    Ok(vs) => (Ok(seq![v] + vs), st2),
                }
            },
        }
    }
}

/// A call: arguments first, then the callee's block in a brand-new
/// context holding only the parameter bindings; a trailing `Return` is
/// unwrapped at this boundary. The callee's body costs one fuel.
pub open spec fn spec_eval_call(
    fc: SpecFunctionCall,
    fns: Seq<SpecFunction>,
    st: StackV,
    fuel: nat,
) -> (Result<SpecVal, SpecEvalErr>, StackV)
    decreases fuel, sz_exprs(fc.args), 2int,
{
    let (ar, st1) = spec_eval_args(fc.args, fns, st, fuel);
    match ar {
        Err(er) => (Err(er), st1),
        Ok(vs) => match spec_get_fn(fns, fc.name) {
            None => (Err(SpecEvalErr::NotFound("Function not found in tree."@)), st1),
            Some(f) => {
                if f.params.len() != vs.len() {
                    (Err(SpecEvalErr::TypeMismatch("Wrong number of arguments."@)), st1)
                } else if fuel == 0 {
                    (Err(SpecEvalErr::OutOfFuel), st1)
                } else {
                    let st2 = st1.push(seq![bind_params(f.params, vs)]);
                    let (br, st3) = spec_eval_block(f.block, fns, st2, (fuel - 1) as nat);
                    let st4 = if st3.len() > 0 {
                        st3.drop_last()
                    } else {
                        st3
                    };
                    match br {
                        Err(er) => (Err(er), st4),
                        Ok(SpecVal::Return(v)) => (Ok(*v), st4),
                        Ok(v) => (Ok(v), st4),
                    }
                }
            },
        },
    }
}

/// A whole program: the function named `main` run in a fresh stack with
/// one empty context, its trailing `Return` unwrapped.
pub open spec fn spec_eval_program(fns: Seq<SpecFunction>, fuel: nat) -> Result<
    SpecVal,
    SpecEvalErr,
> {
    spec_eval_program_full(fns, fuel).0
}

/// As `spec_eval_program`, but keeping the final context stack.
pub open spec fn spec_eval_program_full(fns: Seq<SpecFunction>, fuel: nat) -> (Result<
    SpecVal,
    SpecEvalErr,
>, StackV) {
    let st0: StackV = seq![Seq::empty()];
    match spec_get_fn(fns, "main"@) {
        None => (Err(SpecEvalErr::NotFound("Function not found in tree."@)), st0),
        Some(main_fn) => {
            let (r, st1) = spec_eval_block(main_fn.block, fns, st0, fuel);
            match r {
                Ok(SpecVal::Return(v)) => (Ok(*v), st1),
                _ => (r, st1),
            }
        },
    }
}

// ---------------------------------------------------------------------------
// Evaluation preserves the stack's shape: the number of contexts, and the
// number of scopes in each. Pushed frames and scopes are dropped on every
// path out.
// ---------------------------------------------------------------------------

pub open spec fn same_shape(a: StackV, b: StackV) -> bool {
    a.len() == b.len() && forall|i: int| 0 <= i < a.len() ==> a[i].len() == b[i].len()
}

pub proof fn lemma_eval_shape(e: SpecExpr, fns: Seq<SpecFunction>, st: StackV, fuel: nat)
    requires
        stack_ok(st),
    ensures
        same_shape(st, spec_eval(e, fns, st, fuel).1),
    decreases fuel, sz_expr(e), 1int,
{
    match e {
        SpecExpr::BinOp(l, op, r) => {
            lemma_sz_expr_pos(*l);
            lemma_sz_expr_pos(*r);
            lemma_eval_bin_shape(*l, op, *r, fns, st, fuel);
        },
        SpecExpr::Let(var, _t, e2) => {
            lemma_sz_expr_pos(*var);
            lemma_sz_expr_pos(*e2);
            lemma_assign_var_shape(*var, *e2, fns, st, fuel);
        },
        SpecExpr::VarOp(var, op, e2) => {
            if *var is Var {
                let x = var->Var_0;
                lemma_eval_shape(*e2, fns, st, fuel);
                let (rv, st1) = spec_eval(*e2, fns, st, fuel);
                if rv is Ok {
                    let v = rv->Ok_0;
                    if st1.len() > 0 {
                        lemma_stack_update_shape(st1, x, v);
                        if op == Op::VarOp(VarToken::Assign) {
                        } else {
                            lemma_var_op_shape(x, op, v, st1);
                        }
                    }
                }
            }
        },
        SpecExpr::If(c, b) => {
            lemma_sz_expr_pos(*c);
            lemma_eval_if_shape(*c, b, fns, st, fuel);
        },
        SpecExpr::While(c, b) => {
            lemma_sz_expr_pos(*c);
            lemma_eval_while_shape(*c, b, fns, st, fuel);
        },
        SpecExpr::FuncCall(fc) => {
            lemma_eval_call_shape(fc, fns, st, fuel);
        },
        SpecExpr::Return(e2) => {
            lemma_eval_shape(*e2, fns, st, fuel);
        },
        _ => {},
    }
}

proof fn lemma_assign_var_shape(
    var: SpecExpr,
    e2: SpecExpr,
    fns: Seq<SpecFunction>,
    st: StackV,
    fuel: nat,
)
    requires
        stack_ok(st),
    ensures
        same_shape(st, spec_assign_var(var, e2, fns, st, fuel).1),
    decreases fuel, sz_expr(var) + sz_expr(e2), 1int,
{
    if var is Var {
        let x = var->Var_0;
        lemma_sz_expr_pos(var);
        lemma_sz_expr_pos(e2);
        lemma_eval_shape(e2, fns, st, fuel);
        let (rv, st1) = spec_eval(e2, fns, st, fuel);
        if rv is Ok && st1.len() > 0 {
            let v = rv->Ok_0;
            assert(ctx_insert(st1.last(), x, v).len() == st1.last().len());
            assert(same_shape(st1, stack_insert(st1, x, v)));
        }
    }
}

proof fn lemma_stack_update_shape(st: StackV, x: Seq<char>, v: SpecVal)
    requires
        st.len() > 0,
    ensures
        same_shape(st, stack_update(st, x, v)),
{
    lemma_ctx_update_get(st.last(), x, v, x);
    lemma_ctx_update_scope_lens(st.last(), x, v);
}

/// Replacing a binding keeps every scope's length.
proof fn lemma_ctx_update_scope_lens<V>(c: Seq<Seq<(Seq<char>, V)>>, k: Seq<char>, v: V)
    ensures
        ctx_update(c, k, v).len() == c.len(),
        forall|i: int| 0 <= i < c.len() ==> ctx_update(c, k, v)[i].len() == c[i].len(),
    decreases c.len(),
{
    if c.len() > 0 {
        if context::scope_get(c.last(), k) is Some {
            crate::context::lemma_scope_set_get(c.last(), k, v, k);
            assert(ctx_update(c, k, v) == c.drop_last().push(scope_set_of(c, k, v)));
            assert forall|i: int| 0 <= i < c.len() implies ctx_update(c, k, v)[i].len()
                == c[i].len() by {
                if i < c.len() - 1 {
                    assert(ctx_update(c, k, v)[i] == c.drop_last()[i]);
                }
            }
        } else {
            lemma_ctx_update_scope_lens(c.drop_last(), k, v);
            assert forall|i: int| 0 <= i < c.len() implies ctx_update(c, k, v)[i].len()
                == c[i].len() by {
                if i < c.len() - 1 {
                    assert(ctx_update(c, k, v)[i] == ctx_update(c.drop_last(), k, v)[i]);
                    assert(c.drop_last()[i] == c[i]);
                }
            }
        }
    }
}

/// The scope that an update rewrites, named for the proof above.
spec fn scope_set_of<V>(c: Seq<Seq<(Seq<char>, V)>>, k: Seq<char>, v: V) -> Seq<(Seq<char>, V)> {
    context::scope_set(c.last(), k, v)
}

proof fn lemma_var_op_shape(x: Seq<char>, op: Op, v: SpecVal, st: StackV)
    ensures
        same_shape(st, spec_var_op(x, op, v, st).1),
{
    if st.len() > 0 {
        lemma_stack_update_shape(st, x, v);
        if ctx_get(st.last(), x) is Some {
            match ctx_get(st.last(), x)->0 {
                SpecVal::Num(old_val) => {
                    match v {
                        SpecVal::Num(d) => {
                            lemma_stack_update_shape(
                                st,
                                x,
                                SpecVal::Num(
                                    vstd::wrapping::i32_specs::wrapping_add(old_val, d),
                                ),
                            );
                            lemma_stack_update_shape(
                                st,
                                x,
                                SpecVal::Num(
                                    vstd::wrapping::i32_specs::wrapping_sub(old_val, d),
                                ),
                            );
                            lemma_stack_update_shape(
                                st,
                                x,
                                SpecVal::Num(
                                    vstd::wrapping::i32_specs::wrapping_mul(old_val, d),
                                ),
                            );
                        },
                        _ => {},
                    }
                },
                _ => {},
            }
        }
    }
}

proof fn lemma_eval_bin_shape(
    l: SpecExpr,
    op: Op,
    r: SpecExpr,
    fns: Seq<SpecFunction>,
    st: StackV,
    fuel: nat,
)
    requires
        stack_ok(st),
    ensures
        same_shape(st, spec_eval_bin(l, op, r, fns, st, fuel).1),
    decreases fuel, sz_expr(l) + sz_expr(r), 1int,
{
    lemma_sz_expr_pos(l);
    lemma_sz_expr_pos(r);
    lemma_eval_shape(l, fns, st, fuel);
    let (lr, st1) = spec_eval(l, fns, st, fuel);
    if lr is Ok {
        assert(stack_ok(st1));
        lemma_eval_shape(r, fns, st1, fuel);
    }
}

proof fn lemma_eval_if_shape(
    c: SpecExpr,
    b: Seq<SpecExpr>,
    fns: Seq<SpecFunction>,
    st: StackV,
    fuel: nat,
)
    requires
        stack_ok(st),
    ensures
        same_shape(st, spec_eval_if(c, b, fns, st, fuel).1),
    decreases fuel, sz_expr(c) + sz_exprs(b), 2int,
{
    lemma_sz_expr_pos(c);
    lemma_eval_shape(c, fns, st, fuel);
    let (cr, st1) = spec_eval(c, fns, st, fuel);
    if cr == Ok::<SpecVal, SpecEvalErr>(SpecVal::Bool(true)) {
        lemma_eval_block_shape(b, fns, st1, fuel);
    }
}

proof fn lemma_eval_while_shape(
    c: SpecExpr,
    b: Seq<SpecExpr>,
    fns: Seq<SpecFunction>,
    st: StackV,
    fuel: nat,
)
    requires
        stack_ok(st),
    ensures
        same_shape(st, spec_eval_while(c, b, fns, st, fuel).1),
    decreases fuel, sz_expr(c) + sz_exprs(b), 3int,
{
    lemma_sz_expr_pos(c);
    lemma_eval_if_shape(c, b, fns, st, fuel);
    let (ir, st1) = spec_eval_if(c, b, fns, st, fuel);
    match ir {
        Ok(SpecVal::Bool(false)) => {},
        Ok(SpecVal::Return(_)) => {},
        Ok(_) => {
            if fuel > 0 {
                lemma_eval_while_shape(c, b, fns, st1, (fuel - 1) as nat);
            }
        },
        Err(_) => {},
    }
}

proof fn lemma_eval_stmts_shape(
    stmts: Seq<SpecExpr>,
    fns: Seq<SpecFunction>,
    st: StackV,
    fuel: nat,
)
    requires
        stack_ok(st),
    ensures
        same_shape(st, spec_eval_stmts(stmts, fns, st, fuel).1),
    decreases fuel, sz_exprs(stmts), 0int,
{
    if stmts.len() > 0 {
        lemma_eval_shape(stmts.first(), fns, st, fuel);
        let (r1, st1) = spec_eval(stmts.first(), fns, st, fuel);
        match r1 {
            Ok(SpecVal::Return(_)) => {},
            Ok(_) => {
                if stmts.len() > 1 {
                    lemma_eval_stmts_shape(stmts.drop_first(), fns, st1, fuel);
                }
            },
            Err(_) => {},
        }
    }
}

proof fn lemma_eval_block_shape(b: Seq<SpecExpr>, fns: Seq<SpecFunction>, st: StackV, fuel: nat)
    ensures
        same_shape(st, spec_eval_block(b, fns, st, fuel).1),
        st.len() > 0 && spec_eval_block(b, fns, st, fuel).1.len() > 0 ==> stack_ok(
            spec_eval_block(b, fns, st, fuel).1,
        ) == stack_ok(st),
    decreases fuel, sz_exprs(b), 1int,
{
    if st.len() > 0 {
        let stp = stack_push_scope(st);
        lemma_eval_stmts_shape(b, fns, stp, fuel);
        let (r1, st1) = spec_eval_stmts(b, fns, stp, fuel);
        if st1.len() > 0 {
            assert(st1.last().len() == stp.last().len());
            assert(stp.last().len() == st.last().len() + 1);
            assert(same_shape(st, stack_drop_scope(st1)));
        }
    }
}

proof fn lemma_eval_args_shape(
    args: Seq<SpecExpr>,
    fns: Seq<SpecFunction>,
    st: StackV,
    fuel: nat,
)
    requires
        stack_ok(st),
    ensures
        same_shape(st, spec_eval_args(args, fns, st, fuel).1),
    decreases fuel, sz_exprs(args), 1int,
{
    if args.len() > 0 {
        lemma_eval_shape(args.first(), fns, st, fuel);
        let (r1, st1) = spec_eval(args.first(), fns, st, fuel);
        if r1 is Ok {
            lemma_eval_args_shape(args.drop_first(), fns, st1, fuel);
        }
    }
}

proof fn lemma_eval_call_shape(
    fc: SpecFunctionCall,
    fns: Seq<SpecFunction>,
    st: StackV,
    fuel: nat,
)
    requires
        stack_ok(st),
    ensures
        same_shape(st, spec_eval_call(fc, fns, st, fuel).1),
    decreases fuel, sz_exprs(fc.args), 2int,
{
    lemma_eval_args_shape(fc.args, fns, st, fuel);
    let (ar, st1) = spec_eval_args(fc.args, fns, st, fuel);
    if ar is Ok {
        let vs = ar->Ok_0;
        match spec_get_fn(fns, fc.name) {
            None => {},
            Some(f) => {
                if f.params.len() == vs.len() && fuel > 0 {
                    let st2 = st1.push(seq![bind_params(f.params, vs)]);
                    lemma_eval_block_shape(f.block, fns, st2, (fuel - 1) as nat);
                    let (br, st3) = spec_eval_block(f.block, fns, st2, (fuel - 1) as nat);
                    assert(st3.len() == st2.len());
                    assert(same_shape(st, st3.drop_last()));
                }
            },
        }
    }
}

/// Evaluating any expression leaves a fit stack fit.
pub proof fn lemma_eval_keeps_stack_ok(e: SpecExpr, fns: Seq<SpecFunction>, st: StackV, fuel: nat)
    requires
        stack_ok(st),
    ensures
        stack_ok(spec_eval(e, fns, st, fuel).1),
{
    lemma_eval_shape(e, fns, st, fuel);
}

// ---------------------------------------------------------------------------
// The executable interpreter. Each function returns exactly what the
// big-step evaluator says, and leaves the context stack in exactly the
// state the evaluator says.
// ---------------------------------------------------------------------------

/// Fuel the whole-program entries run with: an upper bound on loop
/// iterations and nested calls, not a semantic limit.
pub const EVAL_FUEL: u64 = 1000000;

pub open spec fn vals_deep(s: Seq<Value>) -> Seq<SpecVal> {
    s.map_values(|v: Value| v.deep_view())
}

pub open spec fn args_append(pre: Seq<SpecVal>, t: (Result<Seq<SpecVal>, SpecEvalErr>, StackV)) -> (
    Result<Seq<SpecVal>, SpecEvalErr>,
    StackV,
) {
    match t.0 {
        Ok(vs) => (Ok(pre + vs), t.1),
        Err(e) => (Err(e), t.1),
    }
}

/// Applies a binary operator to two machine integers.
fn eval_i32_expr(l: i32, op: Op, r: i32) -> (res: EvalRes<Value>)
    ensures
        res_deep(res) == spec_eval_i32(l, op, r),
{
    match op {
        Op::MathOp(MathToken::Division) => match l.checked_div(r) {
            Some(q) => Ok(Value::Num(q)),
            None => Err(EvalErr::WrongOp("Division by zero or overflow.".to_owned())),
        },
        Op::MathOp(MathToken::Modulo) => match l.checked_rem(r) {
            Some(q) => Ok(Value::Num(q)),
            None => Err(EvalErr::WrongOp("Division by zero or overflow.".to_owned())),
        },
        Op::MathOp(MathToken::Multiply) => Ok(Value::Num(l.wrapping_mul(r))),
        Op::MathOp(MathToken::Plus) => Ok(Value::Num(l.wrapping_add(r))),
        Op::MathOp(MathToken::Minus) => Ok(Value::Num(l.wrapping_sub(r))),
        Op::RelOp(RelToken::Equal) => Ok(Value::Bool(l == r)),
        Op::RelOp(RelToken::Geq) => Ok(Value::Bool(l > r)),
        Op::RelOp(RelToken::Leq) => Ok(Value::Bool(l < r)),
        Op::RelOp(RelToken::Neq) => Ok(Value::Bool(l != r)),
        _ => Err(EvalErr::WrongOp("Not an i32 operator.".to_owned())),
    }
}

/// Applies a binary operator to two booleans.
fn eval_bool_expr(l: bool, op: Op, r: bool) -> (res: EvalRes<Value>)
    ensures
        res_deep(res) == spec_eval_bool(l, op, r),
{
    match op {
        Op::BoolOp(BoolToken::And) => Ok(Value::Bool(l && r)),
        Op::BoolOp(BoolToken::Or) => Ok(Value::Bool(l || r)),
        Op::RelOp(RelToken::Equal) => Ok(Value::Bool(l == r)),
        Op::RelOp(RelToken::Geq) => Ok(Value::Bool(l && !r)),
        Op::RelOp(RelToken::Leq) => Ok(Value::Bool(!l && r)),
        Op::RelOp(RelToken::Neq) => Ok(Value::Bool(l != r)),
        _ => Err(EvalErr::WrongOp("Not a boolean operator.".to_owned())),
    }
}

/// A compound assignment such as `a += b`: reads the current `Int32`
/// binding of the name, combines it with the operand, writes it back.
fn eval_var_op(key: &String, op: Op, new_val: &Value, fn_context: &mut FnContext) -> (res: EvalRes<
    Value,
>)
    ensures
        res_deep(res) == spec_var_op(
            key@,
            op,
            new_val.deep_view(),
            old(fn_context).deep_view(),
        ).0,
        final(fn_context).deep_view() == spec_var_op(
            key@,
            op,
            new_val.deep_view(),
            old(fn_context).deep_view(),
        ).1,
{
    let old_num: i32 = match fn_context.get_in_last(key) {
        None => {
            return Err(EvalErr::NotFound("No context found in FnContext.".to_owned()));
        },
        Some(None) => {
            return Err(EvalErr::NotFound("Key not found in context scopes".to_owned()));
        },
        Some(Some(v)) => match v {
            Value::Num(n) => *n,
            _ => {
                return Err(
                    EvalErr::WrongType(
                        "Variable operation on a value that is not an i32.".to_owned(),
                    ),
                );
            },
        },
    };
    let d: i32 = match new_val {
        Value::Num(n) => *n,
        _ => {
            return Err(
                EvalErr::WrongType("Variable operation on a value that is not an i32.".to_owned()),
            );
        },
    };
    let nv: i32 = match op {
        Op::VarOp(VarToken::PlusEq) => old_num.wrapping_add(d),
        Op::VarOp(VarToken::MinEq) => old_num.wrapping_sub(d),
        Op::VarOp(VarToken::MulEq) => old_num.wrapping_mul(d),
        _ => {
            return Err(EvalErr::WrongOp("Not a variable operator.".to_owned()));
        },
    };
    let done = fn_context.update_in_last(key, Value::Num(nv));
    proof {
        assert(done == Some(true));
    }
    Ok(Value::Num(nv))
}

/// A declaration: evaluates the initializer and binds it in the current
/// scope.
fn assign_var(var: Expr, expr: Expr, fn_tree: &mut Functions, fn_context: &mut FnContext, fuel: u64) -> (res: EvalRes<Value>)
    requires
        stack_ok(old(fn_context).deep_view()),
    ensures
        final(fn_tree)@ == old(fn_tree)@,
        res_deep(res) == spec_assign_var(
            var.deep_view(),
            expr.deep_view(),
            old(fn_tree).deep_view(),
            old(fn_context).deep_view(),
            fuel as nat,
        ).0,
        final(fn_context).deep_view() == spec_assign_var(
            var.deep_view(),
            expr.deep_view(),
            old(fn_tree).deep_view(),
            old(fn_context).deep_view(),
            fuel as nat,
        ).1,
    decreases fuel, sz_expr(var.deep_view()) + sz_expr(expr.deep_view()), 1int,
{
    let ghost fns0 = fn_tree.deep_view();
    let ghost st0 = fn_context.deep_view();
    let ghost vd = var.deep_view();
    let ghost ed = expr.deep_view();
    match var {
        Expr::Var(s) => {
            proof {
                lemma_sz_expr_pos(vd);
            }
            match eval_expr(expr, fn_tree, fn_context, fuel) {
                Err(e) => Err(e),
                Ok(v) => {
                    proof {
                        lemma_eval_keeps_stack_ok(ed, fns0, st0, fuel as nat);
                    }
                    let stored = v.clone();
                    if fn_context.insert_in_last(&s, stored) {
                        Ok(v)
                    } else {
                        Err(EvalErr::NotFound("No context found in FnContext.".to_owned()))
                    }
                },
            }
        },
        _ => Err(EvalErr::WrongType("Assignment target is not a variable.".to_owned())),
    }
}

/// Evaluates both operands left to right, then applies the operator to
/// operands of one kind.
fn eval_bin_expr(
    l: Expr,
    op: Op,
    r: Expr,
    fn_tree: &mut Functions,
    fn_context: &mut FnContext,
    fuel: u64,
) -> (res: EvalRes<Value>)
    requires
        stack_ok(old(fn_context).deep_view()),
    ensures
        final(fn_tree)@ == old(fn_tree)@,
        res_deep(res) == spec_eval_bin(
            l.deep_view(),
            op,
            r.deep_view(),
            old(fn_tree).deep_view(),
            old(fn_context).deep_view(),
            fuel as nat,
        ).0,
        final(fn_context).deep_view() == spec_eval_bin(
            l.deep_view(),
            op,
            r.deep_view(),
            old(fn_tree).deep_view(),
            old(fn_context).deep_view(),
            fuel as nat,
        ).1,
    decreases fuel, sz_expr(l.deep_view()) + sz_expr(r.deep_view()), 1int,
{
    let ghost fns0 = fn_tree.deep_view();
    let ghost st0 = fn_context.deep_view();
    let ghost ld = l.deep_view();
    let ghost rd = r.deep_view();
    proof {
        lemma_sz_expr_pos(ld);
        lemma_sz_expr_pos(rd);
    }
    let l_val = match eval_expr(l, fn_tree, fn_context, fuel) {
        Err(e) => {
            return Err(e);
        },
        Ok(v) => v,
    };
    proof {
        lemma_eval_keeps_stack_ok(ld, fns0, st0, fuel as nat);
    }
    let r_val = match eval_expr(r, fn_tree, fn_context, fuel) {
        Err(e) => {
            return Err(e);
        },
        Ok(v) => v,
    };
    match (l_val, r_val) {
        (Value::Num(a), Value::Num(b)) => eval_i32_expr(a, op, b),
        (Value::Bool(a), Value::Bool(b)) => eval_bool_expr(a, op, b),
        _ => Err(
            EvalErr::TypeMismatch(
                "Can not evaluate an operation between a bool and an i32.".to_owned(),
            ),
        ),
    }
}

/// Evaluates one expression or statement. This is the heart of the
/// tree-walk; its meaning is the big-step evaluator's, clause for clause.
pub fn eval_expr(e: Expr, fn_tree: &mut Functions, fn_context: &mut FnContext, fuel: u64) -> (res:
    EvalRes<Value>)
    requires
        stack_ok(old(fn_context).deep_view()),
    ensures
        final(fn_tree)@ == old(fn_tree)@,
        res_deep(res) == spec_eval(
            e.deep_view(),
            old(fn_tree).deep_view(),
            old(fn_context).deep_view(),
            fuel as nat,
        ).0,
        final(fn_context).deep_view() == spec_eval(
            e.deep_view(),
            old(fn_tree).deep_view(),
            old(fn_context).deep_view(),
            fuel as nat,
        ).1,
    decreases fuel, sz_expr(e.deep_view()), 1int,
{
    let ghost fns0 = fn_tree.deep_view();
    let ghost st0 = fn_context.deep_view();
    let ghost ed = e.deep_view();
    match e {
        Expr::Num(n) => {
            proof {
                assert(ed == SpecExpr::Num(n));
                assert(spec_eval(ed, fns0, st0, fuel as nat).0 == Ok::<SpecVal, SpecEvalErr>(
                    SpecVal::Num(n),
                ));
            }
            Ok(Value::Num(n))
        },
        Expr::Bool(b) => {
            proof {
                assert(spec_eval(ed, fns0, st0, fuel as nat).0 == Ok::<SpecVal, SpecEvalErr>(
                    SpecVal::Bool(b),
                ));
            }
            Ok(Value::Bool(b))
        },
        Expr::Var(s) => match fn_context.get_last_context() {
            None => {
                proof {
                    assert(spec_eval(ed, fns0, st0, fuel as nat).0 == Err::<SpecVal, SpecEvalErr>(
                        SpecEvalErr::NotFound("No context found in FnContext."@),
                    ));
                }
                Err(EvalErr::NotFound("No context found in FnContext.".to_owned()))
            },
            Some(c) => match c.get_val(&s) {
                Some(v) => {
                    proof {
                        assert(spec_eval(ed, fns0, st0, fuel as nat).0 == Ok::<
                            SpecVal,
                            SpecEvalErr,
                        >(ctx_get(st0.last(), s@)->0));
                    }
                    Ok(v.clone())
                },
                None => {
                    proof {
                        assert(spec_eval(ed, fns0, st0, fuel as nat).0 == Err::<
                            SpecVal,
                            SpecEvalErr,
                        >(SpecEvalErr::NotFound("Key not found in context scopes"@)));
                    }
                    Err(EvalErr::NotFound("Key not found in context scopes".to_owned()))
                },
            },
        },
        Expr::BinOp(l, op, r) => {
            proof {
                assert(ed == SpecExpr::BinOp(
                    Box::new(l.deep_view()),
                    op,
                    Box::new(r.deep_view()),
                ));
                assert(spec_eval(ed, fns0, st0, fuel as nat) == spec_eval_bin(
                    l.deep_view(),
                    op,
                    r.deep_view(),
                    fns0,
                    st0,
                    fuel as nat,
                ));
            }
            eval_bin_expr(*l, op, *r, fn_tree, fn_context, fuel)
        },
        Expr::Let(var, _t, e2) => {
            proof {
                assert(spec_eval(ed, fns0, st0, fuel as nat) == spec_assign_var(
                    var.deep_view(),
                    e2.deep_view(),
                    fns0,
                    st0,
                    fuel as nat,
                ));
            }
            assign_var(*var, *e2, fn_tree, fn_context, fuel)
        },
        Expr::VarOp(var, op, e2) => match &*var {
            Expr::Var(s_ref) => {
                let s = s_ref.clone();
                let ghost e2d = e2.deep_view();
                proof {
                    assert(expr_deep(*var) == SpecExpr::Var(s_ref@));
                    assert(s@ == s_ref@);
                    assert(ed == SpecExpr::VarOp(
                        Box::new(SpecExpr::Var(s@)),
                        op,
                        Box::new(e2d),
                    ));
                }
                match eval_expr(*e2, fn_tree, fn_context, fuel) {
                    Err(er) => {
                        proof {
                            assert(spec_eval(ed, fns0, st0, fuel as nat).0 == Err::<
                                SpecVal,
                                SpecEvalErr,
                            >(er.deep_view()));
                        }
                        Err(er)
                    },
                    Ok(v) => {
                        if op == Op::VarOp(VarToken::Assign) {
                            let stored = v.clone();
                            match fn_context.update_in_last(&s, stored) {
                                None => Err(
                                    EvalErr::NotFound("No context found in FnContext.".to_owned()),
                                ),
                                Some(true) => Ok(v),
                                Some(false) => Err(
                                    EvalErr::NotFound("Value not found in context.".to_owned()),
                                ),
                            }
                        } else {
                            eval_var_op(&s, op, &v, fn_context)
                        }
                    },
                }
            },
            _ => Err(EvalErr::WrongType("Assignment target is not a variable.".to_owned())),
        },
        Expr::If(c, b) => {
            proof {
                lemma_sz_expr_pos(c.deep_view());
                assert(spec_eval(ed, fns0, st0, fuel as nat) == spec_eval_if(
                    c.deep_view(),
                    b.deep_view(),
                    fns0,
                    st0,
                    fuel as nat,
                ));
            }
            eval_if(*c, b, fn_tree, fn_context, fuel)
        },
        Expr::IfElse(_c, _b) => {
            proof {
                assert(spec_eval(ed, fns0, st0, fuel as nat).0 == Err::<SpecVal, SpecEvalErr>(
                    SpecEvalErr::NotImplemented,
                ));
            }
            Err(EvalErr::NotImplemented)
        },
        Expr::While(c, b) => {
            proof {
                lemma_sz_expr_pos(c.deep_view());
                assert(spec_eval(ed, fns0, st0, fuel as nat) == spec_eval_while(
                    c.deep_view(),
                    b.deep_view(),
                    fns0,
                    st0,
                    fuel as nat,
                ));
            }
            eval_while(*c, b, fn_tree, fn_context, fuel)
        },
        Expr::FuncCall(fc) => {
            proof {
                assert(spec_eval(ed, fns0, st0, fuel as nat) == spec_eval_call(
                    fc.deep_view(),
                    fns0,
                    st0,
                    fuel as nat,
                ));
            }
            eval_fn_call(fc, fn_tree, fn_context, fuel)
        },
        Expr::Return(e2) => {
            proof {
                assert(ed == SpecExpr::Return(Box::new(e2.deep_view())));
            }
            match eval_expr(*e2, fn_tree, fn_context, fuel) {
                Err(er) => Err(er),
                Ok(v) => Ok(Value::Return(Box::new(v))),
            }
        },
    }
}

/// Runs a conditional: a true condition runs the block in a fresh scope,
/// a false one yields `Bool(false)`.
fn eval_if(e: Expr, block: Block, fn_tree: &mut Functions, fn_context: &mut FnContext, fuel: u64) -> (res: EvalRes<Value>)
    requires
        stack_ok(old(fn_context).deep_view()),
    ensures
        final(fn_tree)@ == old(fn_tree)@,
        res_deep(res) == spec_eval_if(
            e.deep_view(),
            block.deep_view(),
            old(fn_tree).deep_view(),
            old(fn_context).deep_view(),
            fuel as nat,
        ).0,
        final(fn_context).deep_view() == spec_eval_if(
            e.deep_view(),
            block.deep_view(),
            old(fn_tree).deep_view(),
            old(fn_context).deep_view(),
            fuel as nat,
        ).1,
    decreases fuel, sz_expr(e.deep_view()) + sz_exprs(block.deep_view()), 2int,
{
    let ghost fns0 = fn_tree.deep_view();
    let ghost st0 = fn_context.deep_view();
    let ghost cd = e.deep_view();
    proof {
        lemma_sz_expr_pos(cd);
    }
    match eval_expr(e, fn_tree, fn_context, fuel) {
        Err(er) => Err(er),
        Ok(Value::Bool(true)) => {
            proof {
                lemma_eval_keeps_stack_ok(cd, fns0, st0, fuel as nat);
            }
            eval_block(block, fn_tree, fn_context, fuel)
        },
        Ok(Value::Bool(false)) => Ok(Value::Bool(false)),
        Ok(_) => Err(
            EvalErr::WrongType("Cannot evaluate condition. Not a boolean expression.".to_owned()),
        ),
    }
}

/// Runs a loop: the conditional over and over until its condition is
/// false. A `Return` from the body stops it at once; any failure is
/// reported as a condition failure; each further round costs one fuel.
pub fn eval_while(
    e: Expr,
    block: Block,
    fn_tree: &mut Functions,
    fn_context: &mut FnContext,
    fuel: u64,
) -> (res: EvalRes<Value>)
    requires
        stack_ok(old(fn_context).deep_view()),
    ensures
        final(fn_tree)@ == old(fn_tree)@,
        res_deep(res) == spec_eval_while(
            e.deep_view(),
            block.deep_view(),
            old(fn_tree).deep_view(),
            old(fn_context).deep_view(),
            fuel as nat,
        ).0,
        final(fn_context).deep_view() == spec_eval_while(
            e.deep_view(),
            block.deep_view(),
            old(fn_tree).deep_view(),
            old(fn_context).deep_view(),
            fuel as nat,
        ).1,
    decreases fuel, sz_expr(e.deep_view()) + sz_exprs(block.deep_view()), 3int,
{
    let ghost fns0 = fn_tree.deep_view();
    let ghost st0 = fn_context.deep_view();
    let ghost cd = e.deep_view();
    let ghost bd = block.deep_view();
    let c2 = e.clone();
    let b2 = block.clone();
    proof {
        lemma_sz_expr_pos(cd);
    }
    let if_val = eval_if(c2, b2, fn_tree, fn_context, fuel);
    match if_val {
        Ok(Value::Bool(false)) => Ok(Value::Bool(false)),
        Ok(Value::Return(v)) => Ok(Value::Return(v)),
        Ok(_) => {
            if fuel == 0 {
                Err(EvalErr::OutOfFuel)
            } else {
                proof {
                    lemma_eval_if_shape(cd, bd, fns0, st0, fuel as nat);
                }
                eval_while(e, block, fn_tree, fn_context, fuel - 1)
            }
        },
        Err(_) => Err(
            EvalErr::WrongType("Cannot evaluate condition. Not a boolean expression.".to_owned()),
        ),
    }
}

/// Runs a block: one fresh scope around its statements, dropped on the
/// way out. The first failure aborts the block; a `Return` stops it and
/// is handed on; otherwise the last statement's value is the block's.
#[verifier::loop_isolation(false)]
pub fn eval_block(block: Block, fn_tree: &mut Functions, fn_context: &mut FnContext, fuel: u64) -> (res: EvalRes<Value>)
    ensures
        final(fn_tree)@ == old(fn_tree)@,
        res_deep(res) == spec_eval_block(
            block.deep_view(),
            old(fn_tree).deep_view(),
            old(fn_context).deep_view(),
            fuel as nat,
        ).0,
        final(fn_context).deep_view() == spec_eval_block(
            block.deep_view(),
            old(fn_tree).deep_view(),
            old(fn_context).deep_view(),
            fuel as nat,
        ).1,
    decreases fuel, sz_exprs(block.deep_view()), 1int,
{
    let ghost fns0 = fn_tree.deep_view();
    let ghost st0 = fn_context.deep_view();
    let ghost bd = block.deep_view();
    if !fn_context.new_scope_in_last() {
        return Err(EvalErr::NotFound("No context found in FnContext.".to_owned()));
    }
    let ghost stp = fn_context.deep_view();
    proof {
        assert(stp =~= stack_push_scope(st0));
        lemma_exprs_deep_elemwise(block.content@);
    }
    let ghost target = spec_eval_stmts(bd, fns0, stp, fuel as nat);
    let mut res: EvalRes<Value> = Err(EvalErr::NotFound("No expressions found.".to_owned()));
    let mut i: usize = 0;
    let mut stop = false;
    proof {
        assert(bd.skip(0) =~= bd);
    }
    while i < block.content.len() && !stop
        invariant
            i <= block.content@.len(),
            bd == block.deep_view(),
            bd.len() == block.content@.len(),
            forall|m: int|
                0 <= m < block.content@.len() ==> bd[m] == crate::ast::expr_deep(
                    #[trigger] block.content@[m],
                ),
            fn_tree@ == old(fn_tree)@,
            fn_tree.deep_view() == fns0,
            stack_ok(fn_context.deep_view()),
            target == spec_eval_stmts(bd, fns0, stp, fuel as nat),
            (stop || i == block.content@.len()) ==> (target.0 == res_deep(res) && target.1
                == fn_context.deep_view()),
            (!stop && i < block.content@.len()) ==> target == spec_eval_stmts(
                bd.skip(i as int),
                fns0,
                fn_context.deep_view(),
                fuel as nat,
            ),
        decreases block.content@.len() - i,
    {
        let ghost pre = fn_context.deep_view();
        proof {
            assert(bd.skip(i as int).first() == bd[i as int]);
            assert(bd.skip(i as int).drop_first() =~= bd.skip(i as int + 1));
            lemma_sz_exprs_elem(bd, i as int);
        }
        let stmt = block.content[i].clone();
        proof {
            assert(stmt.deep_view() == bd[i as int]);
        }
        res = eval_expr(stmt, fn_tree, fn_context, fuel);
        proof {
            lemma_eval_keeps_stack_ok(bd[i as int], fns0, pre, fuel as nat);
        }
        match &res {
            Ok(Value::Return(_)) => {
                stop = true;
            },
            Err(_) => {
                stop = true;
            },
            _ => {},
        }
        i = i + 1;
    }
    proof {
        if !stop && i == block.content@.len() && block.content@.len() == 0 {
            assert(target == spec_eval_stmts(bd, fns0, stp, fuel as nat));
        }
    }
    if !fn_context.drop_scope_in_last() {
        return Err(EvalErr::NotFound("No context found in FnContext.".to_owned()));
    }
    res
}

/// Runs a call: arguments left to right, then the callee's block in a
/// brand-new context holding only the parameter bindings; a trailing
/// `Return` is unwrapped here. The callee's body costs one fuel.
#[verifier::loop_isolation(false)]
pub fn eval_fn_call(
    fn_call: FunctionCall,
    fn_tree: &mut Functions,
    fn_context: &mut FnContext,
    fuel: u64,
) -> (res: EvalRes<Value>)
    requires
        stack_ok(old(fn_context).deep_view()),
    ensures
        final(fn_tree)@ == old(fn_tree)@,
        res_deep(res) == spec_eval_call(
            fn_call.deep_view(),
            old(fn_tree).deep_view(),
            old(fn_context).deep_view(),
            fuel as nat,
        ).0,
        final(fn_context).deep_view() == spec_eval_call(
            fn_call.deep_view(),
            old(fn_tree).deep_view(),
            old(fn_context).deep_view(),
            fuel as nat,
        ).1,
    decreases fuel, sz_exprs(fn_call.deep_view().args), 2int,
{
    let ghost fns0 = fn_tree.deep_view();
    let ghost st0 = fn_context.deep_view();
    let ghost fcd = fn_call.deep_view();
    let ghost ad = fcd.args;
    proof {
        lemma_exprs_deep_elemwise(fn_call.args.content@);
    }
    let ghost target = spec_eval_args(ad, fns0, st0, fuel as nat);
    let mut arg_values: Vec<Value> = Vec::new();
    let mut i: usize = 0;
    proof {
        assert(ad.skip(0) =~= ad);
        assert(vals_deep(arg_values@) =~= Seq::<SpecVal>::empty());
        assert(target == args_append(
            vals_deep(arg_values@),
            spec_eval_args(ad.skip(0), fns0, fn_context.deep_view(), fuel as nat),
        ));
    }
    while i < fn_call.args.content.len()
        invariant
            i <= fn_call.args.content@.len(),
            ad.len() == fn_call.args.content@.len(),
            forall|m: int|
                0 <= m < fn_call.args.content@.len() ==> ad[m] == crate::ast::expr_deep(
                    #[trigger] fn_call.args.content@[m],
                ),
            fn_tree@ == old(fn_tree)@,
            fn_tree.deep_view() == fns0,
            stack_ok(fn_context.deep_view()),
            arg_values@.len() == i,
            target == spec_eval_args(ad, fns0, st0, fuel as nat),
            target == args_append(
                vals_deep(arg_values@),
                spec_eval_args(ad.skip(i as int), fns0, fn_context.deep_view(), fuel as nat),
            ),
        decreases fn_call.args.content@.len() - i,
    {
        let ghost pre = fn_context.deep_view();
        proof {
            assert(ad.skip(i as int).first() == ad[i as int]);
            assert(ad.skip(i as int).drop_first() =~= ad.skip(i as int + 1));
            lemma_sz_exprs_elem(ad, i as int);
        }
        let a = fn_call.args.content[i].clone();
        proof {
            assert(a.deep_view() == ad[i as int]);
        }
        match eval_expr(a, fn_tree, fn_context, fuel) {
            Err(er) => {
                proof {
                    assert(spec_eval_args(ad.skip(i as int), fns0, pre, fuel as nat).0 == Err::<
                        Seq<SpecVal>,
                        SpecEvalErr,
                    >(er.deep_view()));
                }
                return Err(er);
            },
            Ok(v) => {
                proof {
                    lemma_eval_keeps_stack_ok(ad[i as int], fns0, pre, fuel as nat);
                    let rest = spec_eval_args(
                        ad.skip(i as int + 1),
                        fns0,
                        fn_context.deep_view(),
                        fuel as nat,
                    );
                    assert(spec_eval_args(ad.skip(i as int), fns0, pre, fuel as nat)
                        == args_append(seq![v.deep_view()], rest));
                    if rest.0 is Ok {
                        assert(vals_deep(arg_values@) + (seq![v.deep_view()] + rest.0->Ok_0)
                            =~= vals_deep(arg_values@.push(v)) + rest.0->Ok_0);
                    }
                    assert(vals_deep(arg_values@.push(v)) =~= vals_deep(arg_values@).push(
                        v.deep_view(),
                    ));
                }
                arg_values.push(v);
            },
        }
        i = i + 1;
    }
    proof {
        assert(ad.skip(ad.len() as int) =~= Seq::<SpecExpr>::empty());
        assert(target.0 == Ok::<Seq<SpecVal>, SpecEvalErr>(vals_deep(arg_values@)));
        assert(target.1 == fn_context.deep_view());
    }
    let ghost st1 = fn_context.deep_view();
    let func: Function = match get_fn(fn_tree, &fn_call.name) {
        None => {
            return Err(EvalErr::NotFound("Function not found in tree.".to_owned()));
        },
        Some(f) => f.clone(),
    };
    proof {
        assert(func.deep_view() == spec_get_fn(fns0, fcd.name)->0);
        assert(func.deep_view().params.len() == func.params@.len());
    }
    if func.params.len() != arg_values.len() {
        return Err(EvalErr::TypeMismatch("Wrong number of arguments.".to_owned()));
    }
    if fuel == 0 {
        return Err(EvalErr::OutOfFuel);
    }
    fn_context.new_context();
    let created = fn_context.new_scope_in_last();
    proof {
        assert(created);
    }
    let ghost pd = func.deep_view().params;
    let ghost vd = vals_deep(arg_values@);
    proof {
        assert(fn_context.deep_view() =~= st1.push(seq![Seq::<(Seq<char>, SpecVal)>::empty()]));
    }
    let mut k: usize = 0;
    proof {
        assert(bind_params(pd, vd).take(0) =~= Seq::<(Seq<char>, SpecVal)>::empty());
    }
    while k < func.params.len()
        invariant
            k <= func.params@.len(),
            pd.len() == func.params@.len(),
            vd.len() == func.params@.len(),
            pd == func.deep_view().params,
            forall|m: int|
                0 <= m < func.params@.len() ==> (#[trigger] pd[m]).name == func.params@[m].name@,
            forall|m: int|
                0 <= m < arg_values@.len() ==> vd[m] == (#[trigger] arg_values@[m]).deep_view(),
            arg_values@.len() == func.params@.len(),
            fn_tree@ == old(fn_tree)@,
            fn_context.deep_view().len() == st1.len() + 1,
            fn_context.deep_view() =~= st1.push(
                seq![bind_params(pd, vd).take(k as int)],
            ),
        decreases func.params@.len() - k,
    {
        let ghost prestack = fn_context.deep_view();
        let stored = arg_values[k].clone();
        let ghost sv = stored.deep_view();
        proof {
            assert(sv == vd[k as int]);
        }
        let inserted = fn_context.insert_in_last(&func.params[k].name, stored);
        proof {
            assert(inserted);
            assert(prestack.last() == seq![bind_params(pd, vd).take(k as int)]);
            assert(func.params@[k as int].name@ == pd[k as int].name);
            assert(ctx_insert(prestack.last(), pd[k as int].name, vd[k as int]) =~= seq![
                bind_params(pd, vd).take(k as int).push((pd[k as int].name, vd[k as int])),
            ]);
            assert(fn_context.deep_view() =~= st1.push(
                seq![bind_params(pd, vd).take(k as int).push((pd[k as int].name, vd[k as int]))],
            ));
            assert(bind_params(pd, vd).take(k as int).push((pd[k as int].name, vd[k as int]))
                =~= bind_params(pd, vd).take(k as int + 1));
        }
        k = k + 1;
    }
    proof {
        assert(bind_params(pd, vd).take(pd.len() as int) =~= bind_params(pd, vd));
        assert(fn_context.deep_view() =~= st1.push(seq![bind_params(pd, vd)]));
    }
    let return_val = eval_block(func.block, fn_tree, fn_context, fuel - 1);
    fn_context.drop_current_context();
    match return_val {
        Err(e) => Err(e),
        Ok(Value::Return(v)) => Ok(*v),
        Ok(v) => Ok(v),
    }
}

/// Runs a whole program: the function named `main` in a fresh stack with
/// one empty context; a trailing `Return` is unwrapped.
pub fn eval_program(fn_tree: &mut Functions) -> (res: EvalRes<Value>)
    ensures
        final(fn_tree)@ == old(fn_tree)@,
        res_deep(res) == spec_eval_program(old(fn_tree).deep_view(), EVAL_FUEL as nat),
{
    let ghost fns0 = fn_tree.deep_view();
    let mut fn_context = FnContext::new();
    fn_context.new_context();
    proof {
        assert(fn_context.deep_view() =~= seq![Seq::<Seq<(Seq<char>, SpecVal)>>::empty()]);
    }
    let name = "main".to_owned();
    let main_fn: Function = match get_fn(fn_tree, &name) {
        None => {
            return Err(EvalErr::NotFound("Function not found in tree.".to_owned()));
        },
        Some(f) => f.clone(),
    };
    match eval_block(main_fn.block, fn_tree, &mut fn_context, EVAL_FUEL) {
        Err(e) => Err(e),
        Ok(Value::Return(v)) => Ok(*v),
        Ok(v) => Ok(v),
    }
}

/// As `eval_program`, but yields the final context stack instead of the
/// result value.
pub fn eval_program_debug(fn_tree: &mut Functions) -> (res: EvalRes<FnContext>)
    ensures
        final(fn_tree)@ == old(fn_tree)@,
        ({
            let fns = old(fn_tree).deep_view();
            let st0: StackV = seq![Seq::<Seq<(Seq<char>, SpecVal)>>::empty()];
            match spec_get_fn(fns, "main"@) {
                None => res is Err && res->Err_0.deep_view() == SpecEvalErr::NotFound(
                    "Function not found in tree."@,
                ),
                Some(main_fn) => {
                    let (br, st1) = spec_eval_block(main_fn.block, fns, st0, EVAL_FUEL as nat);
                    match br {
                        Err(er) => res is Err && res->Err_0.deep_view() == er,
                        Ok(_) => res is Ok && res->Ok_0.deep_view() == st1,
                    }
                },
            }
        }),
{
    let ghost fns0 = fn_tree.deep_view();
    let mut fn_context = FnContext::new();
    fn_context.new_context();
    proof {
        assert(fn_context.deep_view() =~= seq![Seq::<Seq<(Seq<char>, SpecVal)>>::empty()]);
    }
    let name = "main".to_owned();
    let main_fn: Function = match get_fn(fn_tree, &name) {
        None => {
            return Err(EvalErr::NotFound("Function not found in tree.".to_owned()));
        },
        Some(f) => f.clone(),
    };
    match eval_block(main_fn.block, fn_tree, &mut fn_context, EVAL_FUEL) {
        Err(e) => Err(e),
        Ok(_) => Ok(fn_context),
    }
}

} // verus!
