use simple_rustc::ast::{Expr, MathToken};
use simple_rustc::parser::{parse_bin_op, parse_bool, parse_bool_op, parse_i32, parse_rel_op};
use simple_rustc::ast::{BoolToken, Op, RelToken};

#[test]
fn test_parse_i32() {
    assert_eq!(parse_i32("3"), Ok(("".to_string(), Expr::Num(3))));
    assert_eq!(parse_i32("-3"), Ok(("".to_string(), Expr::Num(-3))));
    assert_eq!(parse_i32("500 + 50"), Ok(("+ 50".to_string(), Expr::Num(500))));
    assert_eq!(
        parse_i32("- - 1000 --100 "),
        Ok(("--100 ".to_string(), Expr::Num(1000)))
    );
}

#[test]
fn test_parse_bin_op() {
    assert_eq!(parse_bin_op("+"), Ok(("".to_string(), MathToken::Plus)));
    assert_eq!(parse_bin_op("-  "), Ok(("".to_string(), MathToken::Minus)));
    assert_eq!(
        parse_bin_op("  / 156  "),
        Ok(("156  ".to_string(), MathToken::Division))
    );
    assert_eq!(parse_bin_op("       *"), Ok(("".to_string(), MathToken::Multiply)));
    assert_eq!(parse_bin_op(" % 12"), Ok(("12".to_string(), MathToken::Modulo)));
}

#[test]
fn test_parse_bool() {
    assert_eq!(parse_bool("true"), Ok(("".to_string(), Expr::Bool(true))));
    assert_eq!(
        parse_bool(" false || false"),
        Ok(("|| false".to_string(), Expr::Bool(false)))
    );
}

#[test]
fn test_parse_bool_op() {
    assert_eq!(parse_bool_op("&&"), Ok(("".to_string(), Op::BoolOp(BoolToken::And))));
    assert_eq!(
        parse_bool_op("|| false "),
        Ok(("false ".to_string(), Op::BoolOp(BoolToken::Or)))
    );
    assert_eq!(
        parse_bool_op("!a || b"),
        Ok(("a || b".to_string(), Op::BoolOp(BoolToken::Not)))
    );
    assert_eq!(parse_rel_op("  > x"), Ok(("x".to_string(), Op::RelOp(RelToken::Geq))));
    assert_eq!(parse_rel_op(" < <"), Ok(("<".to_string(), Op::RelOp(RelToken::Leq))));
}
