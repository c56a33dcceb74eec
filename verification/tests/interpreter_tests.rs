use tinyscript::interpreter::{int_to_string, RunResult, RuntimeError};
use tinyscript::{interpret, parse, tokenize};

fn run_src(src: &str) -> RunResult {
    let toks = tokenize(src).unwrap();
    let ast = parse(toks).unwrap();
    interpret(ast)
}

fn outputs(src: &str) -> Vec<String> {
    let r = run_src(src);
    assert!(r.error.is_none(), "unexpected error: {:?}", r.error);
    r.output
}

fn fails_with(src: &str) -> (Vec<String>, RuntimeError) {
    let r = run_src(src);
    match r.error {
        Some(e) => (r.output, e),
        None => panic!("expected an error, got output {:?}", r.output),
    }
}

#[test]
fn flat_precedence_evaluates_left_to_right() {
    assert_eq!(outputs("p 1 + 2 * 3"), vec![String::from("9")]);
}

#[test]
fn unary_minus_negates_the_whole_trailing_expression() {
    assert_eq!(outputs("p -3 + 2"), vec![String::from("-5")]);
}

#[test]
fn assignment_without_declaration_is_fatal_and_prints_nothing() {
    let (out, err) = fails_with("x = 1 p x");
    assert!(out.is_empty());
    assert_eq!(err, RuntimeError::UndefinedVariable(String::from("x")));
}

#[test]
fn declare_assign_print_round_trip() {
    assert_eq!(
        outputs("v x = 5 x = x + 1 p x"),
        vec![String::from("6")]
    );
}

#[test]
fn function_calls_share_state() {
    assert_eq!(
        outputs("v x = 0 f inc { x = x + 1 } inc! inc! p x"),
        vec![String::from("2")]
    );
}

#[test]
fn if_true_executes_the_body() {
    assert_eq!(outputs("i true { p 1 }"), vec![String::from("1")]);
}

#[test]
fn if_false_outputs_nothing() {
    assert_eq!(outputs("i false { p 1 }"), Vec::<String>::new());
}

#[test]
fn adding_number_and_string_is_a_type_mismatch() {
    let (out, err) = fails_with("p 1 + \"a\"");
    assert!(out.is_empty());
    assert_eq!(err, RuntimeError::TypeMismatch);
}

#[test]
fn non_boolean_condition_is_a_type_mismatch() {
    let (out, err) = fails_with("i 5 { p 1 }");
    assert!(out.is_empty());
    assert_eq!(err, RuntimeError::TypeMismatch);
}

#[test]
fn and_evaluates_its_right_operand_even_when_the_left_decides() {
    // With short-circuiting this would print "false"; eager evaluation
    // reaches the division by zero.
    let (out, err) = fails_with("p false & 1 / 0 == 1");
    assert!(out.is_empty());
    assert_eq!(err, RuntimeError::DivisionByZero);
}

#[test]
fn or_evaluates_its_right_operand_even_when_the_left_decides() {
    let (out, err) = fails_with("p true | y");
    assert!(out.is_empty());
    assert_eq!(err, RuntimeError::UndefinedVariable(String::from("y")));
}

#[test]
fn boolean_operators_evaluate_eagerly_to_their_result() {
    assert_eq!(outputs("p true & false"), vec![String::from("false")]);
    assert_eq!(outputs("p false | true"), vec![String::from("true")]);
}

#[test]
fn while_loop_counts_up() {
    assert_eq!(
        outputs("v x = 0 w x < 3 { x = x + 1 } p x"),
        vec![String::from("3")]
    );
}

#[test]
fn string_concatenation() {
    assert_eq!(outputs("p \"foo\" + \"bar\""), vec![String::from("foobar")]);
}

#[test]
fn division_truncates_toward_zero() {
    assert_eq!(outputs("p 10 / 4"), vec![String::from("2")]);
    assert_eq!(outputs("p (0 - 7) / 2"), vec![String::from("-3")]);
    assert_eq!(outputs("p 7 % 3"), vec![String::from("1")]);
    assert_eq!(outputs("p (0 - 7) % 2"), vec![String::from("-1")]);
}

#[test]
fn division_by_zero_is_fatal() {
    assert_eq!(fails_with("p 1 / 0").1, RuntimeError::DivisionByZero);
    assert_eq!(fails_with("p 1 % 0").1, RuntimeError::DivisionByZero);
}

#[test]
fn addition_overflow_is_fatal() {
    assert_eq!(
        fails_with("p 2147483647 + 1").1,
        RuntimeError::ArithmeticOverflow
    );
}

#[test]
fn subtraction_overflow_is_fatal() {
    assert_eq!(
        fails_with("p 0 - 2147483647 - 2").1,
        RuntimeError::ArithmeticOverflow
    );
}

#[test]
fn multiplication_overflow_is_fatal() {
    assert_eq!(
        fails_with("p 65536 * 65536").1,
        RuntimeError::ArithmeticOverflow
    );
}

#[test]
fn comparisons_and_equality() {
    assert_eq!(outputs("p 1 < 2"), vec![String::from("true")]);
    assert_eq!(outputs("p 2 <= 1"), vec![String::from("false")]);
    assert_eq!(outputs("p 3 > 2"), vec![String::from("true")]);
    assert_eq!(outputs("p 3 >= 4"), vec![String::from("false")]);
    assert_eq!(outputs("p 1 == 1"), vec![String::from("true")]);
    assert_eq!(outputs("p 1 != 2"), vec![String::from("true")]);
    assert_eq!(outputs("p \"a\" == \"a\""), vec![String::from("true")]);
    assert_eq!(outputs("p \"a\" == \"b\""), vec![String::from("false")]);
}

#[test]
fn bare_equals_compares_like_equal_equal() {
    assert_eq!(outputs("p 1 = 1"), vec![String::from("true")]);
    assert_eq!(outputs("p 1 = 2"), vec![String::from("false")]);
}

#[test]
fn unary_not_negates_a_boolean() {
    assert_eq!(outputs("p !true"), vec![String::from("false")]);
    assert_eq!(outputs("p !false"), vec![String::from("true")]);
}

#[test]
fn calling_an_unbound_name_is_not_callable() {
    assert_eq!(
        fails_with("g!").1,
        RuntimeError::NotCallable(String::from("g"))
    );
}

#[test]
fn calling_a_variable_is_not_callable() {
    assert_eq!(
        fails_with("v g = 1 g!").1,
        RuntimeError::NotCallable(String::from("g"))
    );
}

#[test]
fn reading_an_unbound_name_is_undefined() {
    assert_eq!(
        fails_with("p y").1,
        RuntimeError::UndefinedVariable(String::from("y"))
    );
}

#[test]
fn output_printed_before_a_fatal_error_is_kept() {
    let (out, err) = fails_with("p 1 p 2 x = 3");
    assert_eq!(out, vec![String::from("1"), String::from("2")]);
    assert_eq!(err, RuntimeError::UndefinedVariable(String::from("x")));
}

#[test]
fn declarations_store_their_initializer_unevaluated() {
    // `x` is declared before `y` exists, but is only evaluated at the
    // print, when `y` is bound.
    assert_eq!(outputs("v x = y v y = 2 p x"), vec![String::from("2")]);
}

#[test]
fn functions_and_variables_share_one_namespace() {
    assert_eq!(outputs("v x = 1 f x { p 2 } x!"), vec![String::from("2")]);
}

#[test]
fn nested_blocks_run_in_order() {
    assert_eq!(
        outputs("v x = 0 w x < 2 { i x == 1 { p \"one\" } x = x + 1 } p x"),
        vec![String::from("one"), String::from("2")]
    );
}

#[test]
fn decimal_notation_of_numbers() {
    assert_eq!(int_to_string(0), "0");
    assert_eq!(int_to_string(7), "7");
    assert_eq!(int_to_string(-7), "-7");
    assert_eq!(int_to_string(1204), "1204");
    assert_eq!(int_to_string(i32::MAX), "2147483647");
    assert_eq!(int_to_string(i32::MIN), "-2147483648");
}
