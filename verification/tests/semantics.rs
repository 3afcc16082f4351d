use simple_rustc::ast::{Block, BoolToken, Expr, MathToken, Op, Type, Value};
use simple_rustc::interpreter::{eval_expr, eval_program, eval_while, EvalErr, FnContext};
use simple_rustc::parser::parse_program;
use simple_rustc::type_checker::tc_program;

fn run(src: &str) -> Result<Value, EvalErr> {
    let mut tree = parse_program(src).unwrap().1;
    eval_program(&mut tree)
}

fn check(src: &str) -> Result<Type, simple_rustc::type_checker::TypeErr> {
    let mut tree = parse_program(src).unwrap().1;
    tc_program(&mut tree)
}

#[test]
fn sum_of_two_lets() {
    let src = "fn main() -> i32 { let a: i32 = 2; let b: i32 = 3; return a + b; }";
    assert_eq!(check(src).is_ok(), true);
    assert_eq!(run(src), Ok(Value::Num(5)));
}

#[test]
fn call_passes_argument_through() {
    let src = "fn f(x: i32) -> i32 { return x; } fn main() -> i32 { return f(41); }";
    assert_eq!(check(src).is_ok(), true);
    assert_eq!(run(src), Ok(Value::Num(41)));
}

#[test]
fn compound_assignment_accumulates() {
    let src = "fn main() -> i32 { let c: i32 = 0; c += 1; c += 1; return c; }";
    assert_eq!(check(src).is_ok(), true);
    assert_eq!(run(src), Ok(Value::Num(2)));
}

#[test]
fn loop_runs_once_then_stops() {
    let src = "fn main() -> i32 { let i: i32 = 0; let b: bool = true; \
               while b { i += 1; b = false; }; return i; }";
    assert_eq!(check(src).is_ok(), true);
    assert_eq!(run(src), Ok(Value::Num(1)));
}

// Calls that feed an operator stand in parentheses, as the binary grammar
// asks.
#[test]
fn recursive_fib() {
    let src = "fn fib(n: i32) -> i32 { if n == 0 { return 0; }; if n == 1 { return 1; }; \
               return (fib(n-1)) + (fib(n-2)); } \
               fn main() -> i32 { return fib(6); }";
    assert_eq!(run(src), Ok(Value::Num(8)));
}

#[test]
fn declared_bool_with_int_initializer_is_rejected() {
    let src = "fn main() -> i32 { let a: bool = 1; return 0; }";
    let r = check(src);
    assert_eq!(r.is_err(), true);
    assert_eq!(
        r.unwrap_err().0,
        "in function \u{b4}main\u{b4}-> when assigning variable \u{b4}a\u{b4} -> \
         expected type {Bool}, found type {Int32}"
            .to_string()
    );
}

#[test]
fn nested_let_is_invisible_after_block() {
    let src = "fn main() -> i32 { let a: i32 = 1; \
               if true { let a: i32 = 2; a = 2; }; return a; }";
    assert_eq!(run(src), Ok(Value::Num(1)));
}

#[test]
fn assignment_to_undeclared_name_is_not_found() {
    let src = "fn main() -> i32 { b = 1; return 0; }";
    assert_eq!(check(src).is_err(), true);
    match run(src) {
        Err(EvalErr::NotFound(_)) => {}
        other => panic!("expected NotFound, got {:?}", other),
    }
}

#[test]
fn let_redeclaration_in_same_scope_overwrites() {
    let src = "fn main() -> i32 { let a: i32 = 1; let a: i32 = 7; return a; }";
    assert_eq!(run(src), Ok(Value::Num(7)));
}

#[test]
fn mixed_operand_kinds_are_rejected_by_the_checker() {
    let int_plus_bool = "fn main() -> i32 { let x: i32 = 1 + true; return 0; }";
    let r = check(int_plus_bool);
    assert_eq!(r.is_err(), true);
    let msg = r.unwrap_err().0;
    assert_eq!(msg.contains("no implementation for"), true);
    assert_eq!(msg.contains("{Int32} + {Bool}"), true);

    let bool_and_int = "fn main() -> i32 { let x: bool = true && 1; return 0; }";
    let r2 = check(bool_and_int);
    assert_eq!(r2.is_err(), true);
    assert_eq!(r2.unwrap_err().0.contains("{Bool} && {Int32}"), true);
}

#[test]
fn arguments_evaluate_left_to_right_once_each() {
    let src = "fn pick(x: i32, y: i32) -> i32 { return y; } \
               fn main() -> i32 { return pick(2, 3); }";
    assert_eq!(run(src), Ok(Value::Num(3)));
    let unused = "fn drop2(x: i32, y: i32) -> i32 { return 9; } \
                  fn main() -> i32 { return drop2(2, 3); }";
    assert_eq!(run(unused), Ok(Value::Num(9)));
}

#[test]
fn return_short_circuits_nested_blocks() {
    let src = "fn main() -> i32 { let i: i32 = 0; \
               while true { if true { return 5; }; i = 9; }; return 1; }";
    assert_eq!(run(src), Ok(Value::Num(5)));
}

#[test]
fn division_by_zero_is_a_wrong_op_error() {
    let src = "fn main() -> i32 { let a: i32 = 1 / 0; return a; }";
    match run(src) {
        Err(EvalErr::WrongOp(_)) => {}
        other => panic!("expected WrongOp, got {:?}", other),
    }
}

#[test]
fn direct_evaluation_errors() {
    let mut fns = Vec::new();
    let mut ctx = FnContext::new();
    ctx.new_context();
    ctx.new_scope_in_last();

    // An assignment-family operator is no binary operator.
    let bad_op = Expr::BinOp(
        Box::new(Expr::Num(1)),
        Op::BoolOp(BoolToken::And),
        Box::new(Expr::Num(2)),
    );
    match eval_expr(bad_op, &mut fns, &mut ctx, 10) {
        Err(EvalErr::WrongOp(_)) => {}
        other => panic!("expected WrongOp, got {:?}", other),
    }

    // Operand kinds must match at run time as well.
    let mixed = Expr::BinOp(
        Box::new(Expr::Num(1)),
        Op::MathOp(MathToken::Plus),
        Box::new(Expr::Bool(true)),
    );
    match eval_expr(mixed, &mut fns, &mut ctx, 10) {
        Err(EvalErr::TypeMismatch(_)) => {}
        other => panic!("expected TypeMismatch, got {:?}", other),
    }

    // A conditional needs a boolean condition.
    let bad_cond = Expr::If(Box::new(Expr::Num(1)), Block { content: vec![] });
    match eval_expr(bad_cond, &mut fns, &mut ctx, 10) {
        Err(EvalErr::WrongType(_)) => {}
        other => panic!("expected WrongType, got {:?}", other),
    }

    // The two-armed conditional shape is parsed nowhere and evaluated
    // nowhere.
    let unimpl = Expr::IfElse(Box::new(Expr::Bool(true)), Block { content: vec![] });
    assert_eq!(eval_expr(unimpl, &mut fns, &mut ctx, 10), Err(EvalErr::NotImplemented));

    // A loop that never stops runs out of fuel.
    let out = eval_while(
        Expr::Bool(true),
        Block { content: vec![Expr::Num(1)] },
        &mut fns,
        &mut ctx,
        3,
    );
    assert_eq!(out, Err(EvalErr::OutOfFuel));
}

#[test]
fn checker_error_variants() {
    let unknown_fn = "fn main() -> i32 { return nosuch(1); }";
    assert_eq!(check(unknown_fn).unwrap_err().0.contains("not found"), true);

    let arity = "fn f(x: i32) -> i32 { return x; } fn main() -> i32 { return f(1, 2); }";
    assert_eq!(
        check(arity).unwrap_err().0.contains("wrong number of arguments"),
        true
    );

    let ret = "fn main() -> i32 { return true; }";
    assert_eq!(
        check(ret).unwrap_err().0.contains("expected return type {Int32}"),
        true
    );

    let cond = "fn main() -> i32 { if 1 { return 0; }; return 0; }";
    assert_eq!(
        check(cond).unwrap_err().0.contains("expected {Bool}"),
        true
    );

    let undeclared = "fn main() -> i32 { return a; }";
    assert_eq!(
        check(undeclared)
            .unwrap_err()
            .0
            .contains("cannot find value"),
        true
    );
}

// The checker gives a relational comparison of two `Int32` operands the
// operand type rather than `Bool`, so such a program can pass the check
// and still evaluate to a boolean. The result-kind guarantee holds only
// away from this corner.
#[test]
fn relational_typing_follows_operand_type() {
    let src = "fn main() -> i32 { return 1 < 2; }";
    assert_eq!(check(src), Ok(Type::Int32));
    assert_eq!(run(src), Ok(Value::Bool(true)));
}

#[test]
fn zero_argument_call_checks_and_runs() {
    let src = "fn five() -> i32 { return 5; } fn main() -> i32 { return five(); }";
    assert_eq!(check(src), Ok(Type::Int32));
    assert_eq!(run(src), Ok(Value::Num(5)));
}
