use crate::ast::{
    Block, BoolToken, Expr, Function, FunctionCall, Functions, MathToken, Op, RelToken, SpecExpr,
    SpecFunction, SpecFunctionCall, SpecParam, Type, VarToken, expr_deep, exprs_deep, sz_expr,
    sz_exprs, lemma_sz_expr_pos, lemma_sz_exprs_elem, lemma_exprs_deep_elemwise,
};
use crate::context;
use crate::context::{
    ContextStack, ctx_get, ctx_insert, spec_get_fn, get_fn,
};
use vstd::prelude::*;

verus! {

pub type TypeRes<T> = Result<T, TypeErr>;

/// A static error, carrying a breadcrumb-style message.
#[derive(Debug, Clone, PartialEq, Eq)]
pub struct TypeErr(pub String);

impl DeepView for TypeErr {
    type V = Seq<char>;

    open spec fn deep_view(&self) -> Seq<char> {
        self.0@
    }
}

/// Deep model of a checking result.
pub open spec fn tres_deep(r: TypeRes<Type>) -> Result<Type, Seq<char>> {
    match r {
        Ok(t) => Ok(t),
        Err(e) => Err(e.deep_view()),
    }
}

/// Deep model of one call's context over declared types.
pub type TCtxV = Seq<Seq<(Seq<char>, Type)>>;

/// Deep model of the checker's context stack.
pub type TStackV = Seq<TCtxV>;

/// The stack is fit for checking: if a function is being checked, its
/// context has a scope to write into.
pub open spec fn tstack_ok(st: TStackV) -> bool {
    st.len() > 0 ==> st.last().len() > 0
}

pub open spec fn tstack_insert(st: TStackV, k: Seq<char>, t: Type) -> TStackV {
    st.update(st.len() - 1, ctx_insert(st.last(), k, t))
}

pub open spec fn tstack_push_scope(st: TStackV) -> TStackV {
    st.update(st.len() - 1, st.last().push(Seq::empty()))
}

pub open spec fn tstack_drop_scope(st: TStackV) -> TStackV {
    if st.len() > 0 && st.last().len() > 0 {
        st.update(st.len() - 1, st.last().drop_last())
    } else {
        st
    }
}

/// The scope a function is checked in: each parameter bound to its
/// declared type, and a sentinel binding holding the return type.
pub open spec fn bind_param_types(ps: Seq<SpecParam>) -> Seq<(Seq<char>, Type)> {
    Seq::new(ps.len(), |i: int| (ps[i].name, ps[i].param_type))
}

// ---------------------------------------------------------------------------
// Message fragments.
// ---------------------------------------------------------------------------

pub open spec fn spec_type_str(t: Type) -> Seq<char> {
    match t {
        Type::Int32 => "Int32"@,
        Type::Bool => "Bool"@,
        Type::Void => "Void"@,
    }
}

pub open spec fn spec_op_str(op: Op) -> Seq<char> {
    match op {
        Op::MathOp(MathToken::Minus) => "-"@,
        Op::MathOp(MathToken::Plus) => "+"@,
        Op::MathOp(MathToken::Multiply) => "*"@,
        Op::MathOp(MathToken::Division) => "/"@,
        Op::MathOp(MathToken::Modulo) => "%"@,
        Op::BoolOp(BoolToken::And) => "&&"@,
        Op::BoolOp(BoolToken::Or) => "||"@,
        Op::BoolOp(BoolToken::Not) => "!"@,
        Op::RelOp(RelToken::Leq) => "<"@,
        Op::RelOp(RelToken::Geq) => ">"@,
        Op::RelOp(RelToken::Equal) => "=="@,
        Op::RelOp(RelToken::Neq) => "!="@,
        Op::VarOp(VarToken::Assign) => "="@,
        Op::VarOp(VarToken::PlusEq) => "+="@,
        Op::VarOp(VarToken::MinEq) => "-="@,
        Op::VarOp(VarToken::MulEq) => "*="@,
    }
}

pub open spec fn msg_no_ctx() -> Seq<char> {
    "No context found in FnContext."@
}

pub open spec fn msg_miss(k: Seq<char>) -> Seq<char> {
    "cannot find value ´"@ + k + "´ in this scope"@
}

pub open spec fn msg_no_impl(first: Type, op: Op, second: Type) -> Seq<char> {
    "no implementation for ´{"@ + spec_type_str(first) + "} "@ + spec_op_str(op) + " {"@
        + spec_type_str(second) + "}´"@
}

pub open spec fn msg_bin_wrap(inner: Seq<char>) -> Seq<char> {
    "in a binary operation -> "@ + inner
}

pub open spec fn msg_varop_mismatch(want: Type, got: Type) -> Seq<char> {
    "when changing a variable -> expected type {"@ + spec_type_str(want) + "}, found type {"@
        + spec_type_str(got) + "}"@
}

pub open spec fn msg_let_wrap(name: Seq<char>, inner: Seq<char>) -> Seq<char> {
    "when assigning variable ´"@ + name + "´ -> "@ + inner
}

pub open spec fn msg_let_mismatch(name: Seq<char>, want: Type, got: Type) -> Seq<char> {
    "when assigning variable ´"@ + name + "´ -> expected type {"@ + spec_type_str(want)
        + "}, found type {"@ + spec_type_str(got) + "}"@
}

pub open spec fn msg_cond_mismatch(is_if: bool, got: Type) -> Seq<char> {
    if is_if {
        "in ´if´ statement -> expected {Bool} found type {"@ + spec_type_str(got) + "}"@
    } else {
        "in ´while´ statement -> expected {Bool} found type {"@ + spec_type_str(got) + "}"@
    }
}

pub open spec fn msg_fn_wrap(name: Seq<char>, inner: Seq<char>) -> Seq<char> {
    "in function ´"@ + name + "´-> "@ + inner
}

pub open spec fn msg_ret_mismatch(want: Type, got: Type) -> Seq<char> {
    "expected return type {"@ + spec_type_str(want) + "}, found type {"@ + spec_type_str(got)
        + "}"@
}

pub open spec fn msg_fn_missing(name: Seq<char>) -> Seq<char> {
    "function ´"@ + name + "´ not found"@
}

pub open spec fn msg_arg_mismatch(name: Seq<char>, want: Type, got: Type) -> Seq<char> {
    "in function call to ´"@ + name + "´-> expected argument type {"@ + spec_type_str(want)
        + "}, found type {"@ + spec_type_str(got) + "}"@
}

// ---------------------------------------------------------------------------
// The static semantics: what the checker says of every expression.
// ---------------------------------------------------------------------------

/// The type of a binary operation on two `Int32` operands; relational
/// operators answer with the operand type, as the rules have it.
pub open spec fn spec_tc_i32(first: Type, op: Op, second: Type) -> Result<Type, Seq<char>> {
    if !(first == Type::Int32 && second == Type::Int32) {
        Err(msg_no_impl(first, op, second))
    } else {
        match op {
            Op::MathOp(_) => Ok(Type::Int32),
            Op::RelOp(_) => Ok(Type::Int32),
            _ => Err(msg_no_impl(first, op, second)),
        }
    }
}

/// The type of a binary operation on two `Bool` operands.
pub open spec fn spec_tc_bool(first: Type, op: Op, second: Type) -> Result<Type, Seq<char>> {
    if !(first == Type::Bool && second == Type::Bool) {
        Err(msg_no_impl(first, op, second))
    } else {
        match op {
            Op::BoolOp(BoolToken::And) => Ok(Type::Bool),
            Op::BoolOp(BoolToken::Or) => Ok(Type::Bool),
            Op::RelOp(_) => Ok(Type::Bool),
            _ => Err(msg_no_impl(first, op, second)),
        }
    }
}

pub open spec fn spec_tc(e: SpecExpr, fns: Seq<SpecFunction>, st: TStackV) -> (Result<
    Type,
    Seq<char>,
>, TStackV)
    decreases sz_expr(e), 1int,
{
    match e {
        SpecExpr::Num(_) => (Ok(Type::Int32), st),
        SpecExpr::Bool(_) => (Ok(Type::Bool), st),
        SpecExpr::Var(x) => {
            if st.len() == 0 {
                (Err(msg_no_ctx()), st)
            } else {
                match ctx_get(st.last(), x) {
                    Some(t) => (Ok(t), st),
                    None => (Err(msg_miss(x)), st),
                }
            }
        },
        SpecExpr::BinOp(l, op, r) => spec_tc_bin(*l, op, *r, fns, st),
        SpecExpr::VarOp(var, op, val) => spec_tc_var_op(*var, op, *val, fns, st),
        SpecExpr::Let(var, t, e2) => spec_tc_let(*var, t, *e2, fns, st),
        SpecExpr::If(c, b) => spec_tc_cond(*c, b, true, fns, st),
        SpecExpr::While(c, b) => spec_tc_cond(*c, b, false, fns, st),
        SpecExpr::Return(e2) => spec_tc_return(*e2, fns, st),
        SpecExpr::FuncCall(fc) => spec_tc_call(fc, fns, st),
        SpecExpr::IfElse(_c, _b) => (Err("not yet implemented"@), st),
    }
}

/// Both operand types, then the operator held to the family the shared
/// primitive type allows; an operator failure is wrapped with context.
pub open spec fn spec_tc_bin(
    l: SpecExpr,
    op: Op,
    r: SpecExpr,
    fns: Seq<SpecFunction>,
    st: TStackV,
) -> (Result<Type, Seq<char>>, TStackV)
    decreases sz_expr(l) + sz_expr(r), 1int,
    via spec_tc_bin_dec
{
    let (lr, st1) = spec_tc(l, fns, st);
    match lr {
        Err(er) => (Err(er), st1),
        Ok(lt) => {
            let (rr, st2) = spec_tc(r, fns, st1);
            match rr {
                Err(er) => (Err(er), st2),
                Ok(rt) => {
                    let res = if lt == Type::Bool && rt == Type::Bool {
                        spec_tc_bool(lt, op, rt)
                    } else if lt == Type::Int32 && rt == Type::Int32 {
                        spec_tc_i32(lt, op, rt)
                    } else {
                        Err(msg_no_impl(lt, op, rt))
                    };
                    match res {
                        Ok(t) => (Ok(t), st2),
                        Err(er) => (Err(msg_bin_wrap(er)), st2),
                    }
                },
            }
        },
    }
}

#[via_fn]
proof fn spec_tc_bin_dec(l: SpecExpr, op: Op, r: SpecExpr, fns: Seq<SpecFunction>, st: TStackV) {
    lemma_sz_expr_pos(l);
    lemma_sz_expr_pos(r);
}

/// A variable operation: target and operand must share one type.
pub open spec fn spec_tc_var_op(
    var: SpecExpr,
    op: Op,
    val: SpecExpr,
    fns: Seq<SpecFunction>,
    st: TStackV,
) -> (Result<Type, Seq<char>>, TStackV)
    decreases sz_expr(var) + sz_expr(val), 1int,
    via spec_tc_var_op_dec
{
    let (vr, st1) = spec_tc(var, fns, st);
    match vr {
        Err(er) => (Err(er), st1),
        Ok(vt) => {
            let (er2, st2) = spec_tc(val, fns, st1);
            match er2 {
                Err(er) => (Err(er), st2),
                Ok(et) => {
                    if vt == et {
                        (Ok(vt), st2)
                    } else {
                        (Err(msg_varop_mismatch(vt, et)), st2)
                    }
                },
            }
        },
    }
}

#[via_fn]
proof fn spec_tc_var_op_dec(
    var: SpecExpr,
    op: Op,
    val: SpecExpr,
    fns: Seq<SpecFunction>,
    st: TStackV,
) {
    lemma_sz_expr_pos(var);
    lemma_sz_expr_pos(val);
}

/// A declaration: the annotation must equal the initializer's type; the
/// name is then bound in the current scope.
pub open spec fn spec_tc_let(
    var: SpecExpr,
    t: Type,
    e2: SpecExpr,
    fns: Seq<SpecFunction>,
    st: TStackV,
) -> (Result<Type, Seq<char>>, TStackV)
    decreases sz_expr(var) + sz_expr(e2), 1int,
    via spec_tc_let_dec
{
    match var {
        SpecExpr::Var(x) => {
            let (er, st1) = spec_tc(e2, fns, st);
            match er {
                Err(e) => (Err(msg_let_wrap(x, e)), st1),
                Ok(et) => {
                    if t == et {
                        if st1.len() == 0 {
                            (Err(msg_no_ctx()), st1)
                        } else {
                            (Ok(t), tstack_insert(st1, x, t))
                        }
                    } else {
                        (Err(msg_let_mismatch(x, t, et)), st1)
                    }
                },
            }
        },
        _ => (Err("Assignment target is not a variable."@), st),
    }
}

#[via_fn]
proof fn spec_tc_let_dec(var: SpecExpr, t: Type, e2: SpecExpr, fns: Seq<SpecFunction>, st: TStackV) {
    lemma_sz_expr_pos(var);
    lemma_sz_expr_pos(e2);
}

/// A conditional or loop head: the condition must be `Bool`, then the
/// block is checked in a fresh scope.
pub open spec fn spec_tc_cond(
    c: SpecExpr,
    b: Seq<SpecExpr>,
    is_if: bool,
    fns: Seq<SpecFunction>,
    st: TStackV,
) -> (Result<Type, Seq<char>>, TStackV)
    decreases sz_expr(c) + sz_exprs(b), 2int,
    via spec_tc_cond_dec
{
    let (cr, st1) = spec_tc(c, fns, st);
    match cr {
        Err(er) => (Err(er), st1),
        Ok(ct) => {
            if ct == Type::Bool {
                spec_tc_block(b, fns, st1)
            } else {
                (Err(msg_cond_mismatch(is_if, ct)), st1)
            }
        },
    }
}

#[via_fn]
proof fn spec_tc_cond_dec(
    c: SpecExpr,
    b: Seq<SpecExpr>,
    is_if: bool,
    fns: Seq<SpecFunction>,
    st: TStackV,
) {
    lemma_sz_expr_pos(c);
}

/// A `return`: the expression's type must equal the enclosing function's
/// declared return type, read from the sentinel binding.
pub open spec fn spec_tc_return(e2: SpecExpr, fns: Seq<SpecFunction>, st: TStackV) -> (Result<
    Type,
    Seq<char>,
>, TStackV)
    decreases sz_expr(e2), 2int,
{
    if st.len() == 0 {
        (Err(msg_no_ctx()), st)
    } else {
        match ctx_get(st.last(), "return_type"@) {
            None => (Err(msg_miss("return_type"@)), st),
            Some(rt) => {
                let (er, st1) = spec_tc(e2, fns, st);
                match er {
                    Err(e) => (Err(e), st1),
                    Ok(et) => {
                        if et == rt {
                            (Ok(et), st1)
                        } else {
                            (Err(msg_ret_mismatch(rt, et)), st1)
                        }
                    },
                }
            },
        }
    }
}

/// A statement list, first failure aborting; the last statement's type is
/// the list's.
pub open spec fn spec_tc_stmts(stmts: Seq<SpecExpr>, fns: Seq<SpecFunction>, st: TStackV) -> (
    Result<Type, Seq<char>>,
    TStackV,
)
    decreases sz_exprs(stmts), 0int,
{
    if stmts.len() == 0 {
        (Err("Error: No expressions found!"@), st)
    } else {
        let (r1, st1) = spec_tc(stmts.first(), fns, st);
        match r1 {
            Err(er) => (Err(er), st1),
            Ok(t) => {
                if stmts.len() == 1 {
                    (Ok(t), st1)
                } else {
                    spec_tc_stmts(stmts.drop_first(), fns, st1)
                }
            },
        }
    }
}

/// A block: one fresh scope around its statements, dropped when the list
/// checks; a failing list leaves the scope to the enclosing function's
/// teardown.
pub open spec fn spec_tc_block(b: Seq<SpecExpr>, fns: Seq<SpecFunction>, st: TStackV) -> (Result<
    Type,
    Seq<char>,
>, TStackV)
    decreases sz_exprs(b), 1int,
{
    if st.len() == 0 {
        (Err(msg_no_ctx()), st)
    } else if b.len() == 0 {
        (Err("Error: No expressions found!"@), st)
    } else {
        let (r1, st1) = spec_tc_stmts(b, fns, tstack_push_scope(st));
        match r1 {
            Err(er) => (Err(er), st1),
            Ok(t) => {
                if st1.len() == 0 {
                    (Err(msg_no_ctx()), st1)
                } else {
                    (Ok(t), tstack_drop_scope(st1))
                }
            },
        }
    }
}

/// Positional arguments held to the parameter types, left to right.
pub open spec fn spec_tc_args(
    args: Seq<SpecExpr>,
    params: Seq<SpecParam>,
    fname: Seq<char>,
    fns: Seq<SpecFunction>,
    st: TStackV,
) -> (Result<(), Seq<char>>, TStackV)
    decreases sz_exprs(args), 1int,
{
    if args.len() == 0 || params.len() == 0 {
        (Ok(()), st)
    } else {
        let (ar, st1) = spec_tc(args.first(), fns, st);
        match ar {
            Err(er) => (Err(er), st1),
            Ok(at) => {
                if at != params.first().param_type {
                    (Err(msg_arg_mismatch(fname, params.first().param_type, at)), st1)
                } else {
                    spec_tc_args(args.drop_first(), params.drop_first(), fname, fns, st1)
                }
            },
        }
    }
}

/// A call: the callee must exist, the arity must match, each argument
/// must have its parameter's type; the call types to the declared return
/// type.
pub open spec fn spec_tc_call(fc: SpecFunctionCall, fns: Seq<SpecFunction>, st: TStackV) -> (
    Result<Type, Seq<char>>,
    TStackV,
)
    decreases sz_exprs(fc.args), 2int,
{
    match spec_get_fn(fns, fc.name) {
        None => (Err(msg_fn_missing(fc.name)), st),
        Some(f) => {
            if f.params.len() != fc.args.len() {
                (Err("wrong number of arguments in function call"@), st)
            } else {
                let (ar, st1) = spec_tc_args(fc.args, f.params, f.name, fns, st);
                match ar {
                    Err(er) => (Err(er), st1),
                    Ok(_) => (Ok(f.return_type), st1),
                }
            }
        },
    }
}

/// One function checked in a fresh context seeded with its parameters'
/// declared types and the return-type sentinel; failures are wrapped with
/// the function's name.
pub open spec fn spec_tc_function(f: SpecFunction, fns: Seq<SpecFunction>, st: TStackV) -> (Result<
    Type,
    Seq<char>,
>, TStackV) {
    let scope = bind_param_types(f.params).push(("return_type"@, f.return_type));
    let st1 = st.push(seq![scope]);
    let (r1, st2) = spec_tc_block(f.block, fns, st1);
    let st3 = if st2.len() > 0 {
        st2.drop_last()
    } else {
        st2
    };
    match r1 {
        Ok(t) => (Ok(t), st3),
        Err(er) => (Err(msg_fn_wrap(f.name, er)), st3),
    }
}

/// Every function of the program in order; the first failure aborts the
/// whole check.
pub open spec fn spec_tc_funcs(rem: Seq<SpecFunction>, fns: Seq<SpecFunction>, st: TStackV) -> (
    Result<Type, Seq<char>>,
    TStackV,
)
    decreases rem.len(),
{
    if rem.len() == 0 {
        (Err("Error: No functions found."@), st)
    } else {
        let (r1, st1) = spec_tc_function(rem.first(), fns, st);
        match r1 {
            Err(er) => (Err(er), st1),
            Ok(t) => {
                if rem.len() == 1 {
                    (Ok(t), st1)
                } else {
                    spec_tc_funcs(rem.drop_first(), fns, st1)
                }
            },
        }
    }
}

/// What the whole check of a program yields.
pub open spec fn spec_tc_program(fns: Seq<SpecFunction>) -> Result<Type, Seq<char>> {
    spec_tc_funcs(fns, fns, Seq::empty()).0
}

// ---------------------------------------------------------------------------
// Checking preserves the stack's context count; a successful check also
// preserves every context's scope count.
// ---------------------------------------------------------------------------

pub open spec fn tsame_shape(a: TStackV, b: TStackV) -> bool {
    a.len() == b.len() && forall|i: int| 0 <= i < a.len() ==> a[i].len() == b[i].len()
}

pub proof fn lemma_tc_shape(e: SpecExpr, fns: Seq<SpecFunction>, st: TStackV)
    requires
        tstack_ok(st),
    ensures
        spec_tc(e, fns, st).1.len() == st.len(),
        spec_tc(e, fns, st).0 is Ok ==> tsame_shape(st, spec_tc(e, fns, st).1),
    decreases sz_expr(e), 1int,
{
    match e {
        SpecExpr::BinOp(l, op, r) => {
            lemma_sz_expr_pos(*l);
            lemma_sz_expr_pos(*r);
            lemma_tc_bin_shape(*l, op, *r, fns, st);
        },
        SpecExpr::VarOp(var, op, val) => {
            lemma_sz_expr_pos(*var);
            lemma_sz_expr_pos(*val);
            lemma_tc_var_op_shape(*var, op, *val, fns, st);
        },
        SpecExpr::Let(var, t, e2) => {
            lemma_sz_expr_pos(*var);
            lemma_sz_expr_pos(*e2);
            lemma_tc_let_shape(*var, t, *e2, fns, st);
        },
        SpecExpr::If(c, b) => {
            lemma_sz_expr_pos(*c);
            lemma_tc_cond_shape(*c, b, true, fns, st);
        },
        SpecExpr::While(c, b) => {
            lemma_sz_expr_pos(*c);
            lemma_tc_cond_shape(*c, b, false, fns, st);
        },
        SpecExpr::Return(e2) => {
            lemma_tc_return_shape(*e2, fns, st);
        },
        SpecExpr::FuncCall(fc) => {
            lemma_tc_call_shape(fc, fns, st);
        },
        _ => {},
    }
}

proof fn lemma_tc_bin_shape(l: SpecExpr, op: Op, r: SpecExpr, fns: Seq<SpecFunction>, st: TStackV)
    requires
        tstack_ok(st),
    ensures
        spec_tc_bin(l, op, r, fns, st).1.len() == st.len(),
        spec_tc_bin(l, op, r, fns, st).0 is Ok ==> tsame_shape(st, spec_tc_bin(l, op, r, fns, st).1),
    decreases sz_expr(l) + sz_expr(r), 1int,
{
    lemma_sz_expr_pos(l);
    lemma_sz_expr_pos(r);
    lemma_tc_shape(l, fns, st);
    let (lr, st1) = spec_tc(l, fns, st);
    if lr is Ok {
        lemma_tc_shape(r, fns, st1);
    }
}

proof fn lemma_tc_var_op_shape(
    var: SpecExpr,
    op: Op,
    val: SpecExpr,
    fns: Seq<SpecFunction>,
    st: TStackV,
)
    requires
        tstack_ok(st),
    ensures
        spec_tc_var_op(var, op, val, fns, st).1.len() == st.len(),
        spec_tc_var_op(var, op, val, fns, st).0 is Ok ==> tsame_shape(
            st,
            spec_tc_var_op(var, op, val, fns, st).1,
        ),
    decreases sz_expr(var) + sz_expr(val), 1int,
{
    lemma_sz_expr_pos(var);
    lemma_sz_expr_pos(val);
    lemma_tc_shape(var, fns, st);
    let (vr, st1) = spec_tc(var, fns, st);
    if vr is Ok {
        lemma_tc_shape(val, fns, st1);
    }
}

proof fn lemma_tc_let_shape(
    var: SpecExpr,
    t: Type,
    e2: SpecExpr,
    fns: Seq<SpecFunction>,
    st: TStackV,
)
    requires
        tstack_ok(st),
    ensures
        spec_tc_let(var, t, e2, fns, st).1.len() == st.len(),
        spec_tc_let(var, t, e2, fns, st).0 is Ok ==> tsame_shape(
            st,
            spec_tc_let(var, t, e2, fns, st).1,
        ) && tstack_ok(spec_tc_let(var, t, e2, fns, st).1),
    decreases sz_expr(var) + sz_expr(e2), 1int,
{
    if var is Var {
        let x = var->Var_0;
        lemma_sz_expr_pos(var);
        lemma_sz_expr_pos(e2);
        lemma_tc_shape(e2, fns, st);
        let (er, st1) = spec_tc(e2, fns, st);
        if er is Ok && er->Ok_0 == t && st1.len() > 0 {
            assert(ctx_insert(st1.last(), x, t).len() == st1.last().len());
            assert(tsame_shape(st1, tstack_insert(st1, x, t)));
        }
    }
}

proof fn lemma_tc_cond_shape(
    c: SpecExpr,
    b: Seq<SpecExpr>,
    is_if: bool,
    fns: Seq<SpecFunction>,
    st: TStackV,
)
    requires
        tstack_ok(st),
    ensures
        spec_tc_cond(c, b, is_if, fns, st).1.len() == st.len(),
        spec_tc_cond(c, b, is_if, fns, st).0 is Ok ==> tsame_shape(
            st,
            spec_tc_cond(c, b, is_if, fns, st).1,
        ),
    decreases sz_expr(c) + sz_exprs(b), 2int,
{
    lemma_sz_expr_pos(c);
    lemma_tc_shape(c, fns, st);
    let (cr, st1) = spec_tc(c, fns, st);
    if cr is Ok && cr->Ok_0 == Type::Bool {
        lemma_tc_block_shape(b, fns, st1);
    }
}

proof fn lemma_tc_return_shape(e2: SpecExpr, fns: Seq<SpecFunction>, st: TStackV)
    requires
        tstack_ok(st),
    ensures
        spec_tc_return(e2, fns, st).1.len() == st.len(),
        spec_tc_return(e2, fns, st).0 is Ok ==> tsame_shape(st, spec_tc_return(e2, fns, st).1),
    decreases sz_expr(e2), 2int,
{
    if st.len() > 0 && ctx_get(st.last(), "return_type"@) is Some {
        lemma_tc_shape(e2, fns, st);
    }
}

proof fn lemma_tc_stmts_shape(stmts: Seq<SpecExpr>, fns: Seq<SpecFunction>, st: TStackV)
    requires
        tstack_ok(st),
    ensures
        spec_tc_stmts(stmts, fns, st).1.len() == st.len(),
        spec_tc_stmts(stmts, fns, st).0 is Ok ==> tsame_shape(st, spec_tc_stmts(stmts, fns, st).1)
            && tstack_ok(spec_tc_stmts(stmts, fns, st).1),
    decreases sz_exprs(stmts), 0int,
{
    if stmts.len() > 0 {
        lemma_tc_shape(stmts.first(), fns, st);
        let (r1, st1) = spec_tc(stmts.first(), fns, st);
        if r1 is Ok {
            lemma_tc_ok_keeps_ok(stmts.first(), fns, st);
            if stmts.len() > 1 {
                lemma_tc_stmts_shape(stmts.drop_first(), fns, st1);
            }
        }
    }
}

/// A successful check of one expression leaves a fit stack fit.
proof fn lemma_tc_ok_keeps_ok(e: SpecExpr, fns: Seq<SpecFunction>, st: TStackV)
    requires
        tstack_ok(st),
    ensures
        spec_tc(e, fns, st).0 is Ok ==> tstack_ok(spec_tc(e, fns, st).1),
    decreases sz_expr(e), 2int,
{
    lemma_tc_shape(e, fns, st);
}

pub proof fn lemma_tc_block_shape(b: Seq<SpecExpr>, fns: Seq<SpecFunction>, st: TStackV)
    ensures
        spec_tc_block(b, fns, st).1.len() == st.len(),
        spec_tc_block(b, fns, st).0 is Ok ==> tsame_shape(st, spec_tc_block(b, fns, st).1),
    decreases sz_exprs(b), 1int,
{
    if st.len() > 0 && b.len() > 0 {
        let stp = tstack_push_scope(st);
        lemma_tc_stmts_shape(b, fns, stp);
        let (r1, st1) = spec_tc_stmts(b, fns, stp);
        if r1 is Ok && st1.len() > 0 {
            assert(st1.last().len() == stp.last().len());
            assert(stp.last().len() == st.last().len() + 1);
            assert(tsame_shape(st, tstack_drop_scope(st1)));
        }
    }
}

proof fn lemma_tc_args_shape(
    args: Seq<SpecExpr>,
    params: Seq<SpecParam>,
    fname: Seq<char>,
    fns: Seq<SpecFunction>,
    st: TStackV,
)
    requires
        tstack_ok(st),
    ensures
        spec_tc_args(args, params, fname, fns, st).1.len() == st.len(),
        spec_tc_args(args, params, fname, fns, st).0 is Ok ==> tsame_shape(
            st,
            spec_tc_args(args, params, fname, fns, st).1,
        ) && tstack_ok(spec_tc_args(args, params, fname, fns, st).1),
    decreases sz_exprs(args), 1int,
{
    if args.len() > 0 && params.len() > 0 {
        lemma_tc_shape(args.first(), fns, st);
        lemma_tc_ok_keeps_ok(args.first(), fns, st);
        let (ar, st1) = spec_tc(args.first(), fns, st);
        if ar is Ok && ar->Ok_0 == params.first().param_type {
            lemma_tc_args_shape(args.drop_first(), params.drop_first(), fname, fns, st1);
        }
    }
}

proof fn lemma_tc_call_shape(fc: SpecFunctionCall, fns: Seq<SpecFunction>, st: TStackV)
    requires
        tstack_ok(st),
    ensures
        spec_tc_call(fc, fns, st).1.len() == st.len(),
        spec_tc_call(fc, fns, st).0 is Ok ==> tsame_shape(st, spec_tc_call(fc, fns, st).1),
    decreases sz_exprs(fc.args), 2int,
{
    match spec_get_fn(fns, fc.name) {
        None => {},
        Some(f) => {
            if f.params.len() == fc.args.len() {
                lemma_tc_args_shape(fc.args, f.params, f.name, fns, st);
            }
        },
    }
}

/// Checking one function restores the stack it was given: the pushed
/// context is dropped on every path out.
pub proof fn lemma_tc_function_shape(f: SpecFunction, fns: Seq<SpecFunction>, st: TStackV)
    ensures
        spec_tc_function(f, fns, st).1.len() == st.len(),
        spec_tc_function(f, fns, st).0 is Ok ==> tsame_shape(st, spec_tc_function(f, fns, st).1),
{
    let scope = bind_param_types(f.params).push(("return_type"@, f.return_type));
    let st1 = st.push(seq![scope]);
    lemma_tc_block_shape(f.block, fns, st1);
    let (r1, st2) = spec_tc_block(f.block, fns, st1);
    assert(st2.len() == st1.len());
    assert(st2.drop_last().len() == st.len());
    if r1 is Ok {
        assert(tsame_shape(st, st2.drop_last()));
    }
}

// ---------------------------------------------------------------------------
// The executable checker. Each function returns exactly what the static
// semantics say, and leaves the context stack in exactly the state they
// say.
// ---------------------------------------------------------------------------

/// Relies on alloc's string formatting: the result is the two inputs
/// joined, nothing else.
#[verifier::external_body]
fn concat_str(a: &str, b: &str) -> (r: String)
    ensures
        r@ == a@ + b@,
{
    format!("{}{}", a, b)
}

/// The printed name of a type.
fn type_str(t: Type) -> (r: String)
    ensures
        r@ == spec_type_str(t),
{
    match t {
        Type::Int32 => "Int32".to_owned(),
        Type::Bool => "Bool".to_owned(),
        Type::Void => "Void".to_owned(),
    }
}

/// The printed form of an operator token.
fn op_str(op: Op) -> (r: String)
    ensures
        r@ == spec_op_str(op),
{
    match op {
        Op::MathOp(MathToken::Minus) => "-".to_owned(),
        Op::MathOp(MathToken::Plus) => "+".to_owned(),
        Op::MathOp(MathToken::Multiply) => "*".to_owned(),
        Op::MathOp(MathToken::Division) => "/".to_owned(),
        Op::MathOp(MathToken::Modulo) => "%".to_owned(),
        Op::BoolOp(BoolToken::And) => "&&".to_owned(),
        Op::BoolOp(BoolToken::Or) => "||".to_owned(),
        Op::BoolOp(BoolToken::Not) => "!".to_owned(),
        Op::RelOp(RelToken::Leq) => "<".to_owned(),
        Op::RelOp(RelToken::Geq) => ">".to_owned(),
        Op::RelOp(RelToken::Equal) => "==".to_owned(),
        Op::RelOp(RelToken::Neq) => "!=".to_owned(),
        Op::VarOp(VarToken::Assign) => "=".to_owned(),
        Op::VarOp(VarToken::PlusEq) => "+=".to_owned(),
        Op::VarOp(VarToken::MinEq) => "-=".to_owned(),
        Op::VarOp(VarToken::MulEq) => "*=".to_owned(),
    }
}

/// The error for an operation that no operand family supports.
fn err_no_impl(first: Type, op: Op, second: Type) -> (r: TypeRes<Type>)
    ensures
        tres_deep(r) == Err::<Type, Seq<char>>(msg_no_impl(first, op, second)),
{
    let m1 = concat_str("no implementation for ´{", type_str(first).as_str());
    let m2 = concat_str(m1.as_str(), "} ");
    let m3 = concat_str(m2.as_str(), op_str(op).as_str());
    let m4 = concat_str(m3.as_str(), " {");
    let m5 = concat_str(m4.as_str(), type_str(second).as_str());
    let m6 = concat_str(m5.as_str(), "}´");
    Err(TypeErr(m6))
}

/// Checks an operation between two `Int32` operands.
fn tc_i32_expr(first: Type, op: Op, second: Type) -> (r: TypeRes<Type>)
    ensures
        tres_deep(r) == spec_tc_i32(first, op, second),
{
    if !(first == Type::Int32 && second == Type::Int32) {
        err_no_impl(first, op, second)
    } else {
        match op {
            Op::MathOp(_) => Ok(Type::Int32),
            Op::RelOp(_) => Ok(Type::Int32),
            _ => err_no_impl(first, op, second),
        }
    }
}

/// Checks an operation between two `Bool` operands.
fn tc_bool_expr(first: Type, op: Op, second: Type) -> (r: TypeRes<Type>)
    ensures
        tres_deep(r) == spec_tc_bool(first, op, second),
{
    if !(first == Type::Bool && second == Type::Bool) {
        err_no_impl(first, op, second)
    } else {
        match op {
            Op::BoolOp(BoolToken::And) => Ok(Type::Bool),
            Op::BoolOp(BoolToken::Or) => Ok(Type::Bool),
            Op::RelOp(_) => Ok(Type::Bool),
            _ => err_no_impl(first, op, second),
        }
    }
}

/// Type checks any expression.
fn tc_expr(expr: Expr, fn_list: &mut Functions, fn_context: &mut ContextStack<Type>) -> (r:
    TypeRes<Type>)
    requires
        tstack_ok(old(fn_context).deep_view()),
    ensures
        final(fn_list)@ == old(fn_list)@,
        tres_deep(r) == spec_tc(
            expr.deep_view(),
            old(fn_list).deep_view(),
            old(fn_context).deep_view(),
        ).0,
        final(fn_context).deep_view() == spec_tc(
            expr.deep_view(),
            old(fn_list).deep_view(),
            old(fn_context).deep_view(),
        ).1,
    decreases sz_expr(expr.deep_view()), 1int,
{
    let ghost fns0 = fn_list.deep_view();
    let ghost st0 = fn_context.deep_view();
    let ghost ed = expr.deep_view();
    match expr {
        Expr::Num(_n) => Ok(Type::Int32),
        Expr::Bool(_b) => Ok(Type::Bool),
        Expr::Var(s) => match fn_context.get_last_context() {
            None => Err(TypeErr("No context found in FnContext.".to_owned())),
            Some(c) => match c.get_val(&s) {
                Some(t) => Ok(*t),
                None => {
                    let m1 = concat_str("cannot find value ´", s.as_str());
                    let m2 = concat_str(m1.as_str(), "´ in this scope");
                    Err(TypeErr(m2))
                },
            },
        },
        Expr::BinOp(l, op, r) => {
            proof {
                assert(spec_tc(ed, fns0, st0) == spec_tc_bin(l.deep_view(), op, r.deep_view(), fns0, st0));
            }
            tc_bin_expr(*l, op, *r, fn_list, fn_context)
        },
        Expr::VarOp(var, op, val) => {
            proof {
                assert(spec_tc(ed, fns0, st0) == spec_tc_var_op(
                    var.deep_view(),
                    op,
                    val.deep_view(),
                    fns0,
                    st0,
                ));
            }
            tc_var_op(*var, op, *val, fn_list, fn_context)
        },
        Expr::Let(var, var_type, e2) => {
            proof {
                assert(spec_tc(ed, fns0, st0) == spec_tc_let(
                    var.deep_view(),
                    var_type,
                    e2.deep_view(),
                    fns0,
                    st0,
                ));
            }
            tc_let_expr(*var, var_type, *e2, fn_list, fn_context)
        },
        Expr::If(c, b) => {
            proof {
                lemma_sz_expr_pos(c.deep_view());
                assert(spec_tc(ed, fns0, st0) == spec_tc_cond(
                    c.deep_view(),
                    b.deep_view(),
                    true,
                    fns0,
                    st0,
                ));
            }
            tc_cond_branch(*c, b, true, fn_list, fn_context)
        },
        Expr::While(c, b) => {
            proof {
                lemma_sz_expr_pos(c.deep_view());
                assert(spec_tc(ed, fns0, st0) == spec_tc_cond(
                    c.deep_view(),
                    b.deep_view(),
                    false,
                    fns0,
                    st0,
                ));
            }
            tc_cond_branch(*c, b, false, fn_list, fn_context)
        },
        Expr::Return(e2) => {
            proof {
                assert(spec_tc(ed, fns0, st0) == spec_tc_return(e2.deep_view(), fns0, st0));
            }
            tc_return(*e2, fn_list, fn_context)
        },
        Expr::FuncCall(fc) => {
            proof {
                assert(spec_tc(ed, fns0, st0) == spec_tc_call(fc.deep_view(), fns0, st0));
            }
            tc_fn_call(fc, fn_list, fn_context)
        },
        Expr::IfElse(_c, _b) => Err(TypeErr("not yet implemented".to_owned())),
    }
}

/// Type checks a binary operation between two expressions.
fn tc_bin_expr(
    l: Expr,
    op: Op,
    r: Expr,
    fn_list: &mut Functions,
    fn_context: &mut ContextStack<Type>,
) -> (res: TypeRes<Type>)
    requires
        tstack_ok(old(fn_context).deep_view()),
    ensures
        final(fn_list)@ == old(fn_list)@,
        tres_deep(res) == spec_tc_bin(
            l.deep_view(),
            op,
            r.deep_view(),
            old(fn_list).deep_view(),
            old(fn_context).deep_view(),
        ).0,
        final(fn_context).deep_view() == spec_tc_bin(
            l.deep_view(),
            op,
            r.deep_view(),
            old(fn_list).deep_view(),
            old(fn_context).deep_view(),
        ).1,
    decreases sz_expr(l.deep_view()) + sz_expr(r.deep_view()), 1int,
{
    let ghost fns0 = fn_list.deep_view();
    let ghost st0 = fn_context.deep_view();
    let ghost ld = l.deep_view();
    let ghost rd = r.deep_view();
    proof {
        lemma_sz_expr_pos(ld);
        lemma_sz_expr_pos(rd);
    }
    let l_type = match tc_expr(l, fn_list, fn_context) {
        Err(e) => {
            return Err(e);
        },
        Ok(t) => t,
    };
    proof {
        lemma_tc_shape(ld, fns0, st0);
    }
    let r_type = match tc_expr(r, fn_list, fn_context) {
        Err(e) => {
            return Err(e);
        },
        Ok(t) => t,
    };
    let res = if l_type == Type::Bool && r_type == Type::Bool {
        tc_bool_expr(l_type, op, r_type)
    } else if l_type == Type::Int32 && r_type == Type::Int32 {
        tc_i32_expr(l_type, op, r_type)
    } else {
        err_no_impl(l_type, op, r_type)
    };
    match res {
        Ok(t) => Ok(t),
        Err(e) => Err(TypeErr(concat_str("in a binary operation -> ", e.0.as_str()))),
    }
}

/// Type checks a variable operation such as an assignment.
fn tc_var_op(
    var: Expr,
    op: Op,
    val: Expr,
    fn_list: &mut Functions,
    fn_context: &mut ContextStack<Type>,
) -> (res: TypeRes<Type>)
    requires
        tstack_ok(old(fn_context).deep_view()),
    ensures
        final(fn_list)@ == old(fn_list)@,
        tres_deep(res) == spec_tc_var_op(
            var.deep_view(),
            op,
            val.deep_view(),
            old(fn_list).deep_view(),
            old(fn_context).deep_view(),
        ).0,
        final(fn_context).deep_view() == spec_tc_var_op(
            var.deep_view(),
            op,
            val.deep_view(),
            old(fn_list).deep_view(),
            old(fn_context).deep_view(),
        ).1,
    decreases sz_expr(var.deep_view()) + sz_expr(val.deep_view()), 1int,
{
    let ghost fns0 = fn_list.deep_view();
    let ghost st0 = fn_context.deep_view();
    let ghost vd = var.deep_view();
    let ghost ed = val.deep_view();
    proof {
        lemma_sz_expr_pos(vd);
        lemma_sz_expr_pos(ed);
    }
    let var_type = match tc_expr(var, fn_list, fn_context) {
        Err(e) => {
            return Err(e);
        },
        Ok(t) => t,
    };
    proof {
        lemma_tc_shape(vd, fns0, st0);
    }
    let val_type = match tc_expr(val, fn_list, fn_context) {
        Err(e) => {
            return Err(e);
        },
        Ok(t) => t,
    };
    if var_type == val_type {
        Ok(var_type)
    } else {
        let m1 = concat_str(
            "when changing a variable -> expected type {",
            type_str(var_type).as_str(),
        );
        let m2 = concat_str(m1.as_str(), "}, found type {");
        let m3 = concat_str(m2.as_str(), type_str(val_type).as_str());
        let m4 = concat_str(m3.as_str(), "}");
        Err(TypeErr(m4))
    }
}

/// Type checks a declaration.
fn tc_let_expr(
    var: Expr,
    var_type: Type,
    expr: Expr,
    fn_list: &mut Functions,
    fn_context: &mut ContextStack<Type>,
) -> (res: TypeRes<Type>)
    requires
        tstack_ok(old(fn_context).deep_view()),
    ensures
        final(fn_list)@ == old(fn_list)@,
        tres_deep(res) == spec_tc_let(
            var.deep_view(),
            var_type,
            expr.deep_view(),
            old(fn_list).deep_view(),
            old(fn_context).deep_view(),
        ).0,
        final(fn_context).deep_view() == spec_tc_let(
            var.deep_view(),
            var_type,
            expr.deep_view(),
            old(fn_list).deep_view(),
            old(fn_context).deep_view(),
        ).1,
    decreases sz_expr(var.deep_view()) + sz_expr(expr.deep_view()), 1int,
{
    let ghost fns0 = fn_list.deep_view();
    let ghost st0 = fn_context.deep_view();
    let ghost vd = var.deep_view();
    let ghost ed = expr.deep_view();
    match var {
        Expr::Var(s) => {
            proof {
                lemma_sz_expr_pos(vd);
            }
            match tc_expr(expr, fn_list, fn_context) {
                Err(e) => {
                    let m1 = concat_str("when assigning variable ´", s.as_str());
                    let m2 = concat_str(m1.as_str(), "´ -> ");
                    let m3 = concat_str(m2.as_str(), e.0.as_str());
                    Err(TypeErr(m3))
                },
                Ok(expr_type) => {
                    proof {
                        lemma_tc_shape(ed, fns0, st0);
                    }
                    if var_type == expr_type {
                        if fn_context.insert_in_last(&s, var_type) {
                            Ok(var_type)
                        } else {
                            Err(TypeErr("No context found in FnContext.".to_owned()))
                        }
                    } else {
                        let m1 = concat_str("when assigning variable ´", s.as_str());
                        let m2 = concat_str(m1.as_str(), "´ -> expected type {");
                        let m3 = concat_str(m2.as_str(), type_str(var_type).as_str());
                        let m4 = concat_str(m3.as_str(), "}, found type {");
                        let m5 = concat_str(m4.as_str(), type_str(expr_type).as_str());
                        let m6 = concat_str(m5.as_str(), "}");
                        Err(TypeErr(m6))
                    }
                },
            }
        },
        _ => Err(TypeErr("Assignment target is not a variable.".to_owned())),
    }
}

/// Type checks a conditional or loop head and its block.
fn tc_cond_branch(
    c: Expr,
    block: Block,
    is_if: bool,
    fn_list: &mut Functions,
    fn_context: &mut ContextStack<Type>,
) -> (res: TypeRes<Type>)
    requires
        tstack_ok(old(fn_context).deep_view()),
    ensures
        final(fn_list)@ == old(fn_list)@,
        tres_deep(res) == spec_tc_cond(
            c.deep_view(),
            block.deep_view(),
            is_if,
            old(fn_list).deep_view(),
            old(fn_context).deep_view(),
        ).0,
        final(fn_context).deep_view() == spec_tc_cond(
            c.deep_view(),
            block.deep_view(),
            is_if,
            old(fn_list).deep_view(),
            old(fn_context).deep_view(),
        ).1,
    decreases sz_expr(c.deep_view()) + sz_exprs(block.deep_view()), 2int,
{
    let ghost fns0 = fn_list.deep_view();
    let ghost st0 = fn_context.deep_view();
    let ghost cd = c.deep_view();
    proof {
        lemma_sz_expr_pos(cd);
    }
    let cond_type = match tc_expr(c, fn_list, fn_context) {
        Err(e) => {
            return Err(e);
        },
        Ok(t) => t,
    };
    if cond_type == Type::Bool {
        tc_block(block, fn_list, fn_context)
    } else {
        let head = if is_if {
            "in ´if´ statement -> expected {Bool} found type {"
        } else {
            "in ´while´ statement -> expected {Bool} found type {"
        };
        let m1 = concat_str(head, type_str(cond_type).as_str());
        let m2 = concat_str(m1.as_str(), "}");
        Err(TypeErr(m2))
    }
}

/// Type checks a `return` against the enclosing function's declared
/// return type.
fn tc_return(expr: Expr, fn_list: &mut Functions, fn_context: &mut ContextStack<Type>) -> (res:
    TypeRes<Type>)
    requires
        tstack_ok(old(fn_context).deep_view()),
    ensures
        final(fn_list)@ == old(fn_list)@,
        tres_deep(res) == spec_tc_return(
            expr.deep_view(),
            old(fn_list).deep_view(),
            old(fn_context).deep_view(),
        ).0,
        final(fn_context).deep_view() == spec_tc_return(
            expr.deep_view(),
            old(fn_list).deep_view(),
            old(fn_context).deep_view(),
        ).1,
    decreases sz_expr(expr.deep_view()), 2int,
{
    let rt_name = "return_type".to_owned();
    let ret_type: Type = match fn_context.get_in_last(&rt_name) {
        None => {
            return Err(TypeErr("No context found in FnContext.".to_owned()));
        },
        Some(None) => {
            let m1 = concat_str("cannot find value ´", rt_name.as_str());
            let m2 = concat_str(m1.as_str(), "´ in this scope");
            return Err(TypeErr(m2));
        },
        Some(Some(t)) => *t,
    };
    let expr_type = match tc_expr(expr, fn_list, fn_context) {
        Err(e) => {
            return Err(e);
        },
        Ok(t) => t,
    };
    if expr_type == ret_type {
        Ok(expr_type)
    } else {
        let m1 = concat_str("expected return type {", type_str(ret_type).as_str());
        let m2 = concat_str(m1.as_str(), "}, found type {");
        let m3 = concat_str(m2.as_str(), type_str(expr_type).as_str());
        let m4 = concat_str(m3.as_str(), "}");
        Err(TypeErr(m4))
    }
}

/// Type checks a block: a fresh scope around its statements.
#[verifier::loop_isolation(false)]
fn tc_block(block: Block, fn_list: &mut Functions, fn_context: &mut ContextStack<Type>) -> (res:
    TypeRes<Type>)
    ensures
        final(fn_list)@ == old(fn_list)@,
        tres_deep(res) == spec_tc_block(
            block.deep_view(),
            old(fn_list).deep_view(),
            old(fn_context).deep_view(),
        ).0,
        final(fn_context).deep_view() == spec_tc_block(
            block.deep_view(),
            old(fn_list).deep_view(),
            old(fn_context).deep_view(),
        ).1,
    decreases sz_exprs(block.deep_view()), 1int,
{
    let ghost fns0 = fn_list.deep_view();
    let ghost st0 = fn_context.deep_view();
    let ghost bd = block.deep_view();
    if !fn_context.new_scope_in_last() {
        return Err(TypeErr("No context found in FnContext.".to_owned()));
    }
    let ghost stp = fn_context.deep_view();
    proof {
        assert(stp =~= tstack_push_scope(st0));
        lemma_exprs_deep_elemwise(block.content@);
    }
    if block.content.len() == 0 {
        let dropped = fn_context.drop_scope_in_last();
        proof {
            assert(dropped);
            assert(stp.last().drop_last() =~= st0.last());
            assert(fn_context.deep_view() =~= st0);
        }
        return Err(TypeErr("Error: No expressions found!".to_owned()));
    }
    let ghost target = spec_tc_stmts(bd, fns0, stp);
    let mut last_type = Type::Void;
    let mut i: usize = 0;
    proof {
        assert(bd.skip(0) =~= bd);
    }
    while i < block.content.len()
        invariant
            i < block.content@.len() ==> target == spec_tc_stmts(
                bd.skip(i as int),
                fns0,
                fn_context.deep_view(),
            ),
            i == block.content@.len() ==> (target.0 == Ok::<Type, Seq<char>>(last_type)
                && target.1 == fn_context.deep_view()),
            i <= block.content@.len(),
            bd == block.deep_view(),
            bd.len() == block.content@.len(),
            forall|m: int|
                0 <= m < block.content@.len() ==> bd[m] == expr_deep(
                    #[trigger] block.content@[m],
                ),
            fn_list@ == old(fn_list)@,
            fn_list.deep_view() == fns0,
            tstack_ok(fn_context.deep_view()),
        decreases block.content@.len() - i,
    {
        let ghost pre = fn_context.deep_view();
        proof {
            assert(bd.skip(i as int).first() == bd[i as int]);
            assert(bd.skip(i as int).drop_first() =~= bd.skip(i as int + 1));
            lemma_sz_exprs_elem(bd, i as int);
        }
        let stmt = block.content[i].clone();
        proof {
            assert(stmt.deep_view() == bd[i as int]);
        }
        match tc_expr(stmt, fn_list, fn_context) {
            Err(e) => {
                proof {
                    assert(target.0 == Err::<Type, Seq<char>>(e.deep_view()));
                    assert(target.1 == fn_context.deep_view());
                }
                return Err(e);
            },
            Ok(t) => {
                proof {
                    lemma_tc_shape(bd[i as int], fns0, pre);
                }
                last_type = t;
            },
        }
        i = i + 1;
    }
    if !fn_context.drop_scope_in_last() {
        return Err(TypeErr("No context found in FnContext.".to_owned()));
    }
    Ok(last_type)
}

/// Type checks a call: the callee must exist, the arity must match, each
/// argument must have its parameter's declared type.
#[verifier::loop_isolation(false)]
fn tc_fn_call(
    fn_call: FunctionCall,
    fn_list: &mut Functions,
    fn_context: &mut ContextStack<Type>,
) -> (res: TypeRes<Type>)
    requires
        tstack_ok(old(fn_context).deep_view()),
    ensures
        final(fn_list)@ == old(fn_list)@,
        tres_deep(res) == spec_tc_call(
            fn_call.deep_view(),
            old(fn_list).deep_view(),
            old(fn_context).deep_view(),
        ).0,
        final(fn_context).deep_view() == spec_tc_call(
            fn_call.deep_view(),
            old(fn_list).deep_view(),
            old(fn_context).deep_view(),
        ).1,
    decreases sz_exprs(fn_call.deep_view().args), 2int,
{
    let ghost fns0 = fn_list.deep_view();
    let ghost st0 = fn_context.deep_view();
    let ghost fcd = fn_call.deep_view();
    let ghost ad = fcd.args;
    proof {
        lemma_exprs_deep_elemwise(fn_call.args.content@);
    }
    let func: Function = match get_fn(fn_list, &fn_call.name) {
        None => {
            let m1 = concat_str("function ´", fn_call.name.as_str());
            let m2 = concat_str(m1.as_str(), "´ not found");
            return Err(TypeErr(m2));
        },
        Some(f) => f.clone(),
    };
    let ghost fd = func.deep_view();
    proof {
        assert(fd == spec_get_fn(fns0, fcd.name)->0);
        assert(fd.params.len() == func.params@.len());
    }
    if func.params.len() != fn_call.args.content.len() {
        return Err(TypeErr("wrong number of arguments in function call".to_owned()));
    }
    let ghost target = spec_tc_args(ad, fd.params, fd.name, fns0, st0);
    let mut i: usize = 0;
    proof {
        assert(ad.skip(0) =~= ad);
        assert(fd.params.skip(0) =~= fd.params);
    }
    while i < fn_call.args.content.len()
        invariant
            i < fn_call.args.content@.len() ==> target == spec_tc_args(
                ad.skip(i as int),
                fd.params.skip(i as int),
                fd.name,
                fns0,
                fn_context.deep_view(),
            ),
            i == fn_call.args.content@.len() ==> (target.0 == Ok::<(), Seq<char>>(())
                && target.1 == fn_context.deep_view()),
            i <= fn_call.args.content@.len(),
            ad.len() == fn_call.args.content@.len(),
            fd.params.len() == func.params@.len(),
            func.params@.len() == fn_call.args.content@.len(),
            forall|m: int|
                0 <= m < fn_call.args.content@.len() ==> ad[m] == expr_deep(
                    #[trigger] fn_call.args.content@[m],
                ),
            forall|m: int|
                0 <= m < func.params@.len() ==> (#[trigger] fd.params[m]).param_type
                    == func.params@[m].param_type,
            fn_list@ == old(fn_list)@,
            fn_list.deep_view() == fns0,
            tstack_ok(fn_context.deep_view()),
        decreases fn_call.args.content@.len() - i,
    {
        let ghost pre = fn_context.deep_view();
        proof {
            assert(ad.skip(i as int).first() == ad[i as int]);
            assert(ad.skip(i as int).drop_first() =~= ad.skip(i as int + 1));
            assert(fd.params.skip(i as int).first() == fd.params[i as int]);
            assert(fd.params.skip(i as int).drop_first() =~= fd.params.skip(i as int + 1));
            lemma_sz_exprs_elem(ad, i as int);
        }
        let arg = fn_call.args.content[i].clone();
        proof {
            assert(arg.deep_view() == ad[i as int]);
        }
        let arg_type = match tc_expr(arg, fn_list, fn_context) {
            Err(e) => {
                proof {
                    assert(target.0 == Err::<(), Seq<char>>(e.deep_view()));
                }
                return Err(e);
            },
            Ok(t) => t,
        };
        proof {
            lemma_tc_shape(ad[i as int], fns0, pre);
        }
        let param_type = func.params[i].param_type;
        if arg_type != param_type {
            let m1 = concat_str("in function call to ´", func.name.as_str());
            let m2 = concat_str(m1.as_str(), "´-> expected argument type {");
            let m3 = concat_str(m2.as_str(), type_str(param_type).as_str());
            let m4 = concat_str(m3.as_str(), "}, found type {");
            let m5 = concat_str(m4.as_str(), type_str(arg_type).as_str());
            let m6 = concat_str(m5.as_str(), "}");
            proof {
                assert(fd.name == func.name@);
            }
            return Err(TypeErr(m6));
        }
        proof {
            assert(spec_tc_args(ad.skip(i as int), fd.params.skip(i as int), fd.name, fns0, pre)
                == spec_tc_args(
                ad.skip(i as int + 1),
                fd.params.skip(i as int + 1),
                fd.name,
                fns0,
                fn_context.deep_view(),
            ));
            if i as int + 1 == ad.len() {
                assert(ad.skip(i as int + 1) =~= Seq::<SpecExpr>::empty());
            }
        }
        i = i + 1;
    }
    Ok(func.return_type)
}

/// Type checks one function in a fresh context seeded with its parameter
/// types and the return-type sentinel.
#[verifier::loop_isolation(false)]
fn tc_function(
    func: &Function,
    fn_list: &mut Functions,
    fn_context: &mut ContextStack<Type>,
) -> (res: TypeRes<Type>)
    ensures
        final(fn_list)@ == old(fn_list)@,
        tres_deep(res) == spec_tc_function(
            func.deep_view(),
            old(fn_list).deep_view(),
            old(fn_context).deep_view(),
        ).0,
        final(fn_context).deep_view() == spec_tc_function(
            func.deep_view(),
            old(fn_list).deep_view(),
            old(fn_context).deep_view(),
        ).1,
{
    let ghost fns0 = fn_list.deep_view();
    let ghost st0 = fn_context.deep_view();
    let ghost fd = func.deep_view();
    let ghost pd = fd.params;
    fn_context.new_context();
    let created = fn_context.new_scope_in_last();
    proof {
        assert(created);
        assert(fn_context.deep_view() =~= st0.push(seq![Seq::<(Seq<char>, Type)>::empty()]));
        assert(bind_param_types(pd).take(0) =~= Seq::<(Seq<char>, Type)>::empty());
    }
    let mut k: usize = 0;
    while k < func.params.len()
        invariant
            k <= func.params@.len(),
            pd.len() == func.params@.len(),
            pd == fd.params,
            forall|m: int|
                0 <= m < func.params@.len() ==> (#[trigger] pd[m]).name == func.params@[m].name@
                    && pd[m].param_type == func.params@[m].param_type,
            fn_list@ == old(fn_list)@,
            fn_context.deep_view().len() == st0.len() + 1,
            fn_context.deep_view() =~= st0.push(seq![bind_param_types(pd).take(k as int)]),
        decreases func.params@.len() - k,
    {
        let ghost prestack = fn_context.deep_view();
        let pt = func.params[k].param_type;
        let inserted = fn_context.insert_in_last(&func.params[k].name, pt);
        proof {
            assert(inserted);
            assert(prestack.last() == seq![bind_param_types(pd).take(k as int)]);
            assert(ctx_insert(prestack.last(), func.params@[k as int].name@, pt) =~= seq![
                bind_param_types(pd).take(k as int).push((pd[k as int].name, pd[k as int].param_type)),
            ]);
            assert(fn_context.deep_view() =~= st0.push(
                seq![bind_param_types(pd).take(k as int).push((pd[k as int].name, pd[k as int].param_type))],
            ));
            assert(bind_param_types(pd).take(k as int).push(
                (pd[k as int].name, pd[k as int].param_type),
            ) =~= bind_param_types(pd).take(k as int + 1));
        }
        k = k + 1;
    }
    proof {
        assert(bind_param_types(pd).take(pd.len() as int) =~= bind_param_types(pd));
    }
    let rt_name = "return_type".to_owned();
    let ghost prestack = fn_context.deep_view();
    let inserted = fn_context.insert_in_last(&rt_name, func.return_type);
    proof {
        assert(inserted);
        assert(rt_name@ == "return_type"@);
        assert(prestack.last() == seq![bind_param_types(pd)]);
        assert(ctx_insert(prestack.last(), "return_type"@, func.return_type) =~= seq![
            bind_param_types(pd).push(("return_type"@, fd.return_type)),
        ]);
        assert(fn_context.deep_view() =~= st0.push(
            seq![bind_param_types(pd).push(("return_type"@, fd.return_type))],
        ));
    }
    let block = func.block.clone();
    proof {
        assert(block.deep_view() == fd.block);
    }
    let res = tc_block(block, fn_list, fn_context);
    fn_context.drop_current_context();
    match res {
        Ok(t) => Ok(t),
        Err(e) => {
            let m1 = concat_str("in function ´", func.name.as_str());
            let m2 = concat_str(m1.as_str(), "´-> ");
            let m3 = concat_str(m2.as_str(), e.0.as_str());
            Err(TypeErr(m3))
        },
    }
}

/// Type checks a complete program: every function in order, first failure
/// aborting the whole check.
#[verifier::loop_isolation(false)]
pub fn tc_program(fn_list: &mut Functions) -> (res: TypeRes<Type>)
    ensures
        final(fn_list)@ == old(fn_list)@,
        tres_deep(res) == spec_tc_program(old(fn_list).deep_view()),
{
    let ghost fns0 = fn_list.deep_view();
    let mut fn_context: ContextStack<Type> = ContextStack::new();
    if fn_list.len() == 0 {
        return Err(TypeErr("Error: No functions found.".to_owned()));
    }
    let ghost target = spec_tc_funcs(fns0, fns0, Seq::empty());
    let mut last_type = Type::Void;
    let mut i: usize = 0;
    proof {
        assert(fns0.skip(0) =~= fns0);
        assert(fn_context.deep_view() =~= Seq::<TCtxV>::empty());
    }
    while i < fn_list.len()
        invariant
            i < fn_list@.len() ==> target == spec_tc_funcs(
                fns0.skip(i as int),
                fns0,
                fn_context.deep_view(),
            ),
            i == fn_list@.len() ==> (target.0 == Ok::<Type, Seq<char>>(last_type)),
            i <= fn_list@.len(),
            fns0.len() == fn_list@.len(),
            forall|m: int|
                0 <= m < fn_list@.len() ==> fns0[m] == (#[trigger] fn_list@[m]).deep_view(),
            fn_list@ == old(fn_list)@,
            fn_list.deep_view() == fns0,
        decreases fn_list@.len() - i,
    {
        proof {
            assert(fns0.skip(i as int).first() == fns0[i as int]);
            assert(fns0.skip(i as int).drop_first() =~= fns0.skip(i as int + 1));
        }
        let func = fn_list[i].clone();
        proof {
            assert(func.deep_view() == fns0[i as int]);
        }
        match tc_function(&func, fn_list, &mut fn_context) {
            Err(e) => {
                proof {
                    assert(target.0 == Err::<Type, Seq<char>>(e.deep_view()));
                }
                return Err(e);
            },
            Ok(t) => {
                last_type = t;
            },
        }
        i = i + 1;
    }
    Ok(last_type)
}

} // verus!
