use simple_rustc::ast::Value;
use simple_rustc::interpreter::eval_program;
use simple_rustc::parser::parse_program;

// The binary grammar takes literals, parenthesized expressions and plain
// names as operands, so a call that feeds an operator stands in
// parentheses.
#[test]
fn eval_fibo_program() {
    let fibo = "
        fn fibo(i: i32) -> i32 {
            if i == 1 {
                return 0;
            };
            if i == 2 {
                return 1;
            };

            return (fibo(i-1)) + (fibo(i-2));

        }

        fn twice(off: i32) -> i32 {
            return off*2;
        }

        fn main() -> () {
            let a: i32 = 7;
            fibo(a);
        }

    ";

    let mut tree = parse_program(fibo).unwrap().1;
    assert_eq!(eval_program(&mut tree).is_ok(), true);
    assert_eq!(eval_program(&mut tree).unwrap(), Value::Num(8));
}

#[test]
fn test_eval_program() {
    let main = "
        fn test(i: i32) -> () {
            let a: i32 = 3 + i;
        }

        fn main() -> () {
            let a: i32 = 300;
            let b: bool = true;
            let c: i32 = 0;
            while b {
                c = 1;
                b = false;
            };
            test(a);
        }";
    let mut tree = parse_program(main).unwrap().1;
    assert_eq!(eval_program(&mut tree).is_ok(), true);
}
