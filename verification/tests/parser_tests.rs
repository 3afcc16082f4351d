use simple_rustc::ast::{Expr, Type};
use simple_rustc::parser::{
    parse_bool, parse_i32, parse_keyword, parse_program, parse_right_expr, parse_type,
};

#[test]
fn parser_test_parse_i32() {
    assert_eq!(parse_i32("3"), Ok(("".to_string(), Expr::Num(3))));
    assert_eq!(parse_i32("-3"), Ok(("".to_string(), Expr::Num(-3))));
    assert_eq!(parse_i32("500 + 50"), Ok(("+ 50".to_string(), Expr::Num(500))));
    assert_eq!(
        parse_i32("- - 1000 --100 "),
        Ok(("--100 ".to_string(), Expr::Num(1000)))
    );
}

#[test]
fn parser_test_parse_bool() {
    assert_eq!(parse_bool("true"), Ok(("".to_string(), Expr::Bool(true))));
    assert_eq!(
        parse_bool("  false && true"),
        Ok(("&& true".to_string(), Expr::Bool(false)))
    );
}

#[test]
fn test_parse_type() {
    assert_eq!(parse_type("i32"), Ok(("".to_string(), Type::Int32)));
    assert_eq!(parse_type(" bool : true;"), Ok((": true;".to_string(), Type::Bool)));
}

#[test]
fn test_parse_right_expr() {
    assert_eq!(parse_right_expr("a = 2").is_ok(), true);
    assert_eq!(parse_right_expr("1 + 3 + 4 / 50").is_ok(), true);
}

#[test]
fn test_parse_keyword() {
    assert_eq!(parse_keyword("return 1 + 2").is_ok(), true);
    assert_eq!(parse_keyword("let a: i32 = 1 + 3;").is_ok(), true);
    assert_eq!(parse_keyword("if a == true { return 0; }").is_ok(), true);
    assert_eq!(parse_keyword("while true { return 1; }").is_ok(), true);
    assert_eq!(parse_keyword("a += 5;").is_ok(), true);
    // A function definition is not a keyword statement: the statement
    // grammar holds `return`, `let`, `if`, `while`, assignments and calls
    // only.
    assert_eq!(
        parse_keyword(
            "
        fn func(a: i32, b: bool, c :i32) -> i32 {
            let d: bool = a == c;
            let hej: bool = ((1+3) == 4) == true;
            if b && d == true {
                return 0;
            };
        }"
        )
        .is_ok(),
        false
    );
}

#[test]
fn test_parse_program() {
    let program = "
    fn test(b: bool) -> i32 {
        let: a: i32 = 0;
        if b {
            a = 50;
        };
        return a;
    }

    fn main() -> () {
        let b: bool = true;
        let i: i32 = 5;
        let a: i32 = 0;
        while (b) {
            a += test(b);
            b = false;
        };
    }";
    assert_eq!(parse_program(program).is_ok(), true);
}

#[test]
fn parse_program_collects_functions() {
    let program = "
    fn one() -> i32 {
        return 1;
    }

    fn main() -> i32 {
        return one();
    }";
    let (rest, funcs) = parse_program(program).unwrap();
    assert_eq!(rest, "".to_string());
    assert_eq!(funcs.len(), 2);
    assert_eq!(funcs[0].name, "one".to_string());
    assert_eq!(funcs[1].name, "main".to_string());
    assert_eq!(funcs[0].return_type, Type::Int32);
}

#[test]
fn parse_i32_rejects_overflow() {
    assert_eq!(parse_i32("2147483647").is_ok(), true);
    assert_eq!(parse_i32("2147483648").is_ok(), false);
    assert_eq!(parse_i32("-2147483647"), Ok(("".to_string(), Expr::Num(-2147483647))));
}
