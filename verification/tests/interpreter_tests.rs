use std::rc::Rc;

use treelox::environment::Object;
use treelox::environment::csv_str;
use treelox::expression::Expr;
use treelox::interpreter::Control;
use treelox::interpreter::Interpreter;
use treelox::interpreter::render_object;
use treelox::interpreter::u64_to_string;
use treelox::semantics::NoNatives;
use treelox::statement::Stmt;
use treelox::token::Token;
use treelox::token::TokenType;

const FUEL: u64 = 100_000;

fn ident(name: &str) -> Token {
    Token::new(TokenType::Identifier, name.to_string(), 1)
}

fn op(t: TokenType, text: &str) -> Token {
    Token::new(t, text.to_string(), 1)
}

fn num(x: f64) -> Expr {
    Expr::Literal { value: Object::Number(x.to_bits()) }
}

fn text(s: &str) -> Expr {
    Expr::Literal { value: Object::Str(s.to_string()) }
}

fn boolean(b: bool) -> Expr {
    Expr::Literal { value: Object::Boolean(b) }
}

fn variable(name: &str) -> Expr {
    Expr::Variable { name: ident(name) }
}

fn binary(l: Expr, t: TokenType, sym: &str, r: Expr) -> Expr {
    Expr::Binary { left: Box::new(l), operator: op(t, sym), right: Box::new(r) }
}

fn print_stmt(e: Expr) -> Stmt {
    Stmt::Print { expression: e }
}

fn var_stmt(name: &str, init: Expr) -> Stmt {
    Stmt::Var { name: ident(name), initializer: init }
}

fn call(callee: Expr, args: Vec<Expr>) -> Expr {
    Expr::Call { callee: Box::new(callee), paren: op(TokenType::Identifier, ")"), arguments: args }
}

fn fun_stmt(name: &str, params: Vec<&str>, body: Vec<Stmt>) -> Stmt {
    Stmt::Function {
        name: ident(name),
        params: Rc::new(params.into_iter().map(|p| p.to_string()).collect()),
        body: Rc::new(body),
    }
}

fn run(program: Vec<Stmt>) -> Interpreter {
    let mut it = Interpreter::new();
    let c = it.interpret(&program, &NoNatives, FUEL);
    assert!(!matches!(c, Control::Stopped), "step budget must suffice in tests");
    it
}

fn outputs(it: &Interpreter) -> Vec<String> {
    it.output.clone()
}

#[test]
fn truthiness_of_each_variant() {
    assert!(Object::Number(0.0f64.to_bits()).is_thuthy());
    assert!(Object::Number(1.0f64.to_bits()).is_thuthy());
    assert!(Object::Str(String::new()).is_thuthy());
    assert!(Object::Boolean(true).is_thuthy());
    assert!(!Object::Boolean(false).is_thuthy());
    assert!(!Object::Nil.is_thuthy());
    assert!(!Object::Unitialized.is_thuthy());
}

#[test]
fn zero_is_truthy_in_if() {
    // if (0) print "yes"; else print "no";
    let it = run(vec![Stmt::If {
        condition: num(0.0),
        then_branch: Box::new(print_stmt(text("yes"))),
        else_branch: Some(Box::new(print_stmt(text("no")))),
    }]);
    assert_eq!(outputs(&it), vec!["yes".to_string()]);
    assert!(it.errors.is_empty());
}

#[test]
fn equality_across_types_is_false() {
    assert!(!Object::Number(1.0f64.to_bits()).is_equal(Object::Str("1".to_string())));
    assert!(!Object::Nil.is_equal(Object::Boolean(false)));
    assert!(!Object::Unitialized.is_equal(Object::Nil));
    assert!(!Object::Nil.is_equal(Object::Unitialized));
    assert!(Object::Nil.is_equal(Object::Nil));
    assert!(Object::Unitialized.is_equal(Object::Unitialized));
    assert!(Object::Str("a".to_string()).is_equal(Object::Str("a".to_string())));
    assert!(Object::Number(2.0f64.to_bits()).is_equal(Object::Number(2.0f64.to_bits())));
}

#[test]
fn equality_across_types_through_evaluator() {
    // print 1 == "1"; print nil == false;
    let it = run(vec![
        print_stmt(binary(num(1.0), TokenType::EqualEqual, "==", text("1"))),
        print_stmt(binary(
            Expr::Literal { value: Object::Nil },
            TokenType::EqualEqual,
            "==",
            boolean(false),
        )),
    ]);
    assert_eq!(outputs(&it), vec!["false".to_string(), "false".to_string()]);
    assert!(it.errors.is_empty());
}

#[test]
fn nan_equals_nothing() {
    let nan = (0.0f64 / 0.0f64).to_bits();
    assert!(!Object::Number(nan).is_equal(Object::Number(nan)));
}

#[test]
fn arithmetic_is_ieee_double() {
    let it = run(vec![
        var_stmt("a", binary(num(1.0), TokenType::Plus, "+", num(2.0))),
        var_stmt("b", binary(num(7.0), TokenType::Minus, "-", num(2.5))),
        var_stmt("c", binary(num(3.0), TokenType::Star, "*", num(4.0))),
        var_stmt("d", binary(num(1.0), TokenType::Slash, "/", num(2.0))),
        print_stmt(binary(variable("a"), TokenType::EqualEqual, "==", num(3.0))),
        print_stmt(binary(variable("b"), TokenType::EqualEqual, "==", num(4.5))),
        print_stmt(binary(variable("c"), TokenType::EqualEqual, "==", num(12.0))),
        print_stmt(binary(variable("d"), TokenType::EqualEqual, "==", num(0.5))),
    ]);
    assert_eq!(outputs(&it), vec!["true"; 4].iter().map(|s| s.to_string()).collect::<Vec<_>>());
    assert!(it.errors.is_empty());
}

#[test]
fn comparisons_follow_ieee_order() {
    let it = run(vec![
        print_stmt(binary(num(1.0), TokenType::Less, "<", num(2.0))),
        print_stmt(binary(num(2.0), TokenType::LessEqual, "<=", num(1.0))),
        print_stmt(binary(num(3.0), TokenType::Greater, ">", num(2.0))),
        print_stmt(binary(num(2.0), TokenType::GreaterEqual, ">=", num(2.0))),
        print_stmt(binary(num(1.0), TokenType::BangEqual, "!=", num(2.0))),
    ]);
    assert_eq!(
        outputs(&it),
        vec!["true", "false", "true", "true", "true"]
            .iter()
            .map(|s| s.to_string())
            .collect::<Vec<_>>()
    );
}

#[test]
fn string_concatenation_and_equality() {
    let it = run(vec![
        print_stmt(binary(text("foo"), TokenType::Plus, "+", text("bar"))),
        print_stmt(binary(text("a"), TokenType::EqualEqual, "==", text("a"))),
        print_stmt(binary(text("a"), TokenType::BangEqual, "!=", text("b"))),
    ]);
    assert_eq!(
        outputs(&it),
        vec!["foobar", "true", "true"].iter().map(|s| s.to_string()).collect::<Vec<_>>()
    );
}

#[test]
fn mixed_arithmetic_reports_type_error_and_continues() {
    // "a" - 1; print "after";
    let it = run(vec![
        Stmt::Expression { expression: binary(text("a"), TokenType::Minus, "-", num(1.0)) },
        print_stmt(text("after")),
    ]);
    assert_eq!(it.errors.len(), 1);
    assert_eq!(it.errors[0].message, "Operands must be numbers.".to_string());
    assert_eq!(outputs(&it), vec!["after".to_string()]);
}

#[test]
fn mixed_plus_has_its_own_message() {
    let it = run(vec![Stmt::Expression {
        expression: binary(text("a"), TokenType::Plus, "+", num(1.0)),
    }]);
    assert_eq!(it.errors.len(), 1);
    assert_eq!(it.errors[0].message, "Operands must be two numbers or two strings.".to_string());
}

#[test]
fn string_minus_string_is_a_type_error() {
    let it = run(vec![Stmt::Expression {
        expression: binary(text("a"), TokenType::Minus, "-", text("b")),
    }]);
    assert_eq!(it.errors.len(), 1);
    assert_eq!(it.errors[0].message, "Operands must be numbers.".to_string());
}

#[test]
fn unary_operators() {
    let it = run(vec![
        print_stmt(Expr::Unary { operator: op(TokenType::Bang, "!"), right: Box::new(num(0.0)) }),
        print_stmt(Expr::Unary {
            operator: op(TokenType::Minus, "-"),
            right: Box::new(num(2.0)),
        }),
    ]);
    assert_eq!(outputs(&it)[0], "false".to_string());
    assert_eq!(outputs(&it)[1], "-2".to_string());
}

#[test]
fn unary_minus_on_string_reports_type_error() {
    let it = run(vec![Stmt::Expression {
        expression: Expr::Unary { operator: op(TokenType::Minus, "-"), right: Box::new(text("x")) },
    }]);
    assert_eq!(it.errors.len(), 1);
    assert_eq!(it.errors[0].message, "Operand must be a number.".to_string());
}

#[test]
fn short_circuit_and_never_evaluates_right() {
    // var x = false and nope; print x;  -- `nope` is undefined, yet no fault
    let it = run(vec![
        var_stmt(
            "x",
            Expr::Logical {
                left: Box::new(boolean(false)),
                operator: op(TokenType::And, "and"),
                right: Box::new(variable("nope")),
            },
        ),
        print_stmt(variable("x")),
    ]);
    assert!(it.errors.is_empty());
    assert_eq!(outputs(&it), vec!["false".to_string()]);
}

#[test]
fn short_circuit_or_never_evaluates_right() {
    let it = run(vec![var_stmt(
        "x",
        Expr::Logical {
            left: Box::new(boolean(true)),
            operator: op(TokenType::Or, "or"),
            right: Box::new(variable("nope")),
        },
    )]);
    assert!(it.errors.is_empty());
}

#[test]
fn and_evaluates_right_when_left_truthy() {
    let it = run(vec![print_stmt(Expr::Logical {
        left: Box::new(boolean(true)),
        operator: op(TokenType::And, "and"),
        right: Box::new(text("right")),
    })]);
    assert_eq!(outputs(&it), vec!["right".to_string()]);
}

#[test]
fn undefined_variable_reports_and_yields_nil() {
    let it = run(vec![print_stmt(variable("ghostly"))]);
    assert_eq!(it.errors.len(), 1);
    assert_eq!(it.errors[0].message, "Undefined variable 'ghostly'.".to_string());
    assert_eq!(outputs(&it), vec!["nil".to_string()]);
}

#[test]
fn assignment_is_an_expression_and_mutates() {
    let it = run(vec![
        var_stmt("a", num(1.0)),
        print_stmt(Expr::Assign { name: ident("a"), value: Box::new(num(2.0)) }),
        print_stmt(binary(variable("a"), TokenType::EqualEqual, "==", num(2.0))),
    ]);
    assert_eq!(outputs(&it), vec!["2".to_string(), "true".to_string()]);
}

#[test]
fn assignment_to_undefined_name_fails() {
    let it = run(vec![Stmt::Expression {
        expression: Expr::Assign { name: ident("nope"), value: Box::new(num(1.0)) },
    }]);
    assert_eq!(it.errors.len(), 1);
    assert_eq!(it.errors[0].message, "Undefined variable 'nope'.".to_string());
}

#[test]
fn block_scoping_inner_definition_invisible_outside() {
    // var a = 1; { var a = 2; print a; } print a;
    let it = run(vec![
        var_stmt("a", num(1.0)),
        Stmt::Block { statements: vec![var_stmt("a", num(2.0)), print_stmt(variable("a"))] },
        print_stmt(variable("a")),
    ]);
    assert_eq!(outputs(&it), vec!["2".to_string(), "1".to_string()]);
    assert!(it.errors.is_empty());
}

#[test]
fn block_scoping_variable_defined_inside_is_gone_after() {
    let it = run(vec![
        Stmt::Block { statements: vec![var_stmt("b", num(2.0))] },
        print_stmt(variable("b")),
    ]);
    assert_eq!(it.errors.len(), 1);
    assert_eq!(it.errors[0].message, "Undefined variable 'b'.".to_string());
}

#[test]
fn block_assignment_mutates_outer_binding() {
    // var a = 1; { a = 2; } print a;
    let it = run(vec![
        var_stmt("a", num(1.0)),
        Stmt::Block {
            statements: vec![Stmt::Expression {
                expression: Expr::Assign { name: ident("a"), value: Box::new(num(2.0)) },
            }],
        },
        print_stmt(variable("a")),
    ]);
    assert_eq!(outputs(&it), vec!["2".to_string()]);
    assert!(it.errors.is_empty());
}

#[test]
fn while_loop_counts() {
    // var i = 0; while (i < 3) i = i + 1; print i;
    let it = run(vec![
        var_stmt("i", num(0.0)),
        Stmt::While {
            condition: binary(variable("i"), TokenType::Less, "<", num(3.0)),
            body: Box::new(Stmt::Expression {
                expression: Expr::Assign {
                    name: ident("i"),
                    value: Box::new(binary(variable("i"), TokenType::Plus, "+", num(1.0))),
                },
            }),
        },
        print_stmt(variable("i")),
    ]);
    assert_eq!(outputs(&it), vec!["3".to_string()]);
}

#[test]
fn function_call_returns_value() {
    // fun f() { return 42; } print f();
    let it = run(vec![
        fun_stmt("f", vec![], vec![Stmt::Return { keyword: ident("return"), value: num(42.0) }]),
        print_stmt(call(variable("f"), vec![])),
    ]);
    assert_eq!(outputs(&it), vec!["42".to_string()]);
}

#[test]
fn function_without_return_yields_nil() {
    let it = run(vec![
        fun_stmt("g", vec![], vec![print_stmt(text("inside"))]),
        print_stmt(call(variable("g"), vec![])),
    ]);
    assert_eq!(outputs(&it), vec!["inside".to_string(), "nil".to_string()]);
}

#[test]
fn parameters_bind_positionally() {
    // fun sub2(a, b) { return a - b; } print sub2(7, 2);
    let it = run(vec![
        fun_stmt(
            "sub2",
            vec!["a", "b"],
            vec![Stmt::Return {
                keyword: ident("return"),
                value: binary(variable("a"), TokenType::Minus, "-", variable("b")),
            }],
        ),
        print_stmt(call(variable("sub2"), vec![num(7.0), num(2.0)])),
    ]);
    assert_eq!(outputs(&it), vec!["5".to_string()]);
}

#[test]
fn arity_mismatch_reports_and_yields_nil() {
    // fun one(a) {} var r = one(1, 2); print r;
    let it = run(vec![
        fun_stmt("one", vec!["a"], vec![]),
        var_stmt("r", call(variable("one"), vec![num(1.0), num(2.0)])),
        print_stmt(variable("r")),
    ]);
    assert_eq!(it.errors.len(), 1);
    assert_eq!(it.errors[0].message, "Expected 1 arguments, but got 2.".to_string());
    assert_eq!(outputs(&it), vec!["nil".to_string()]);
}

#[test]
fn calling_a_number_is_not_callable() {
    let it = run(vec![Stmt::Expression { expression: call(num(1.0), vec![]) }]);
    assert_eq!(it.errors.len(), 1);
    assert_eq!(it.errors[0].message, "Can only call functions and classes.".to_string());
}

#[test]
fn closures_share_mutable_state() {
    // fun makeCounter() { var i = 0; fun counter() { i = i + 1; print i; }
    //                     return counter; }
    // var counter = makeCounter(); counter(); counter();
    let counter_body = vec![
        Stmt::Expression {
            expression: Expr::Assign {
                name: ident("i"),
                value: Box::new(binary(variable("i"), TokenType::Plus, "+", num(1.0))),
            },
        },
        print_stmt(variable("i")),
    ];
    let it = run(vec![
        fun_stmt(
            "makeCounter",
            vec![],
            vec![
                var_stmt("i", num(0.0)),
                fun_stmt("counter", vec![], counter_body),
                Stmt::Return { keyword: ident("return"), value: variable("counter") },
            ],
        ),
        var_stmt("counter", call(variable("makeCounter"), vec![])),
        Stmt::Expression { expression: call(variable("counter"), vec![]) },
        Stmt::Expression { expression: call(variable("counter"), vec![]) },
    ]);
    assert!(it.errors.is_empty());
    assert_eq!(outputs(&it), vec!["1".to_string(), "2".to_string()]);
}

#[test]
fn builtin_arity_is_zero_and_registry_answers() {
    let mut it = Interpreter::new();
    it.define_var(&"answer".to_string(), Object::Builtin("answer".to_string()));
    let program = vec![print_stmt(call(variable("answer"), vec![]))];
    let c = it.interpret(&program, &NoNatives, FUEL);
    assert!(matches!(c, Control::Normal));
    // NoNatives maps every native to nil.
    assert_eq!(it.output, vec!["nil".to_string()]);
    assert!(it.errors.is_empty());

    let program2 = vec![Stmt::Expression { expression: call(variable("answer"), vec![num(1.0)]) }];
    it.interpret(&program2, &NoNatives, FUEL);
    assert_eq!(it.errors.len(), 1);
    assert_eq!(it.errors[0].message, "Expected 0 arguments, but got 1.".to_string());
}

#[test]
fn rendering_of_each_variant() {
    assert_eq!(render_object(&Object::Nil), "nil".to_string());
    assert_eq!(render_object(&Object::Unitialized), "unitialized".to_string());
    assert_eq!(render_object(&Object::Boolean(true)), "true".to_string());
    assert_eq!(render_object(&Object::Boolean(false)), "false".to_string());
    assert_eq!(render_object(&Object::Str("hi".to_string())), "hi".to_string());
    assert_eq!(render_object(&Object::Builtin("clock".to_string())), "clock".to_string());
    let f = Object::Function {
        name: "f".to_string(),
        params: Rc::new(vec!["a".to_string(), "b".to_string()]),
        body: Rc::new(vec![]),
        env: 0,
    };
    assert_eq!(render_object(&f), "fn f(a, b)".to_string());
}

#[test]
fn uninitialized_sentinel_prints_and_is_falsy() {
    // var u; print u;   (the grammar supplies an uninitialized literal)
    let it = run(vec![
        var_stmt("u", Expr::Literal { value: Object::Unitialized }),
        print_stmt(variable("u")),
        Stmt::If {
            condition: variable("u"),
            then_branch: Box::new(print_stmt(text("truthy"))),
            else_branch: Some(Box::new(print_stmt(text("falsy")))),
        },
    ]);
    assert_eq!(
        outputs(&it),
        vec!["unitialized".to_string(), "falsy".to_string()]
    );
}

#[test]
fn csv_str_joins_with_comma_space() {
    assert_eq!(csv_str(&vec![]), String::new());
    assert_eq!(csv_str(&vec!["a".to_string()]), "a".to_string());
    assert_eq!(
        csv_str(&vec!["a".to_string(), "b".to_string(), "c".to_string()]),
        "a, b, c".to_string()
    );
}

#[test]
fn decimal_rendering_of_naturals() {
    assert_eq!(u64_to_string(0), "0".to_string());
    assert_eq!(u64_to_string(7), "7".to_string());
    assert_eq!(u64_to_string(42), "42".to_string());
    assert_eq!(u64_to_string(90210), "90210".to_string());
}

#[test]
fn out_of_fuel_stops_cleanly() {
    // while (true) {}  -- the budget runs out, execution reports Stopped
    let mut it = Interpreter::new();
    let program = vec![Stmt::While {
        condition: boolean(true),
        body: Box::new(Stmt::Block { statements: vec![] }),
    }];
    let c = it.interpret(&program, &NoNatives, 1_000);
    assert!(matches!(c, Control::Stopped));
}

#[test]
fn grouping_is_transparent() {
    let it = run(vec![print_stmt(Expr::Grouping { expression: Box::new(num(5.0)) })]);
    assert_eq!(outputs(&it), vec!["5".to_string()]);
}
