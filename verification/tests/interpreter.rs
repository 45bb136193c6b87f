use juul::eval::{interpret, Interp};
use juul::lexer::{lex, Token};
use juul::parser::parse;

fn run(src: &str) -> Interp {
    let tokens = lex(src);
    let ast = parse(&tokens).expect("program should parse");
    interpret(&ast, 1000)
}

fn run_output(src: &str) -> Vec<String> {
    run(src).output
}

#[test]
fn print_string_literal() {
    assert_eq!(run_output("print \"hi\";"), vec!["hi".to_string()]);
}

#[test]
fn assign_and_print() {
    assert_eq!(run_output("x = 5; print x;"), vec!["5".to_string()]);
}

#[test]
fn if_else_takes_then_branch() {
    assert_eq!(
        run_output("if (1) { print \"yes\"; } else { print \"no\"; }"),
        vec!["yes".to_string()]
    );
}

#[test]
fn function_call_with_arguments() {
    assert_eq!(
        run_output("func add(a, b) { print a + b; } add(2, 3);"),
        vec!["5".to_string()]
    );
}

#[test]
fn string_minus_string_is_one_diagnostic_and_run_continues() {
    let r = run("print \"a\" - \"b\"; print \"ok\";");
    assert_eq!(r.errors, vec!["Error: Unsupported operator for strings".to_string()]);
    // the failing expression yields the sentinel 0.0, and execution goes on
    assert_eq!(r.output, vec!["0".to_string(), "ok".to_string()]);
    assert!(r.live);
}

#[test]
fn number_plus_string_concatenates() {
    assert_eq!(run_output("print 1 + \"x\";"), vec!["1x".to_string()]);
}

#[test]
fn assignment_inside_if_block_does_not_escape() {
    assert_eq!(
        run_output("x = 1; if (1) { x = 2; } print x;"),
        vec!["1".to_string()]
    );
}

#[test]
fn function_calls_produce_zero_value() {
    assert_eq!(
        run_output("func f() { } y = f(); print y;"),
        vec!["0".to_string()]
    );
}

#[test]
fn arithmetic_and_precedence() {
    assert_eq!(run_output("print 1 + 2 * 3;"), vec!["7".to_string()]);
    assert_eq!(run_output("print (1 + 2) * 3;"), vec!["9".to_string()]);
    assert_eq!(run_output("print 10 / 4;"), vec!["2.5".to_string()]);
    assert_eq!(run_output("print 7 - 2 - 1;"), vec!["4".to_string()]);
}

#[test]
fn comparisons_yield_one_or_zero() {
    assert_eq!(run_output("print 2 < 3;"), vec!["1".to_string()]);
    assert_eq!(run_output("print 2 > 3;"), vec!["0".to_string()]);
    assert_eq!(run_output("print 3 <= 3;"), vec!["1".to_string()]);
    assert_eq!(run_output("print 2 >= 3;"), vec!["0".to_string()]);
    assert_eq!(run_output("print 2 == 2;"), vec!["1".to_string()]);
    assert_eq!(run_output("print 2 != 2;"), vec!["0".to_string()]);
}

#[test]
fn string_equality() {
    assert_eq!(run_output("print \"a\" == \"a\";"), vec!["1".to_string()]);
    assert_eq!(run_output("print \"a\" != \"b\";"), vec!["1".to_string()]);
    assert_eq!(run_output("print \"a\" + \"b\";"), vec!["ab".to_string()]);
}

#[test]
fn unary_operators() {
    assert_eq!(run_output("print -5;"), vec!["-5".to_string()]);
    assert_eq!(run_output("print !0;"), vec!["1".to_string()]);
    assert_eq!(run_output("print !3;"), vec!["0".to_string()]);
    assert_eq!(run_output("print --5;"), vec!["5".to_string()]);
}

#[test]
fn fractional_numbers_print_shortest_form() {
    assert_eq!(run_output("print 0.1;"), vec!["0.1".to_string()]);
    assert_eq!(run_output("print 1.5 + 1;"), vec!["2.5".to_string()]);
}

#[test]
fn undefined_variable_is_reported_and_yields_zero() {
    let r = run("print x;");
    assert_eq!(r.errors, vec!["Error: Undefined variable 'x'".to_string()]);
    assert_eq!(r.output, vec!["0".to_string()]);
}

#[test]
fn undefined_function_is_reported() {
    let r = run("f();");
    assert_eq!(r.errors, vec!["Error: Undefined function 'f'".to_string()]);
    assert!(r.output.is_empty());
}

#[test]
fn arity_mismatch_is_reported() {
    let r = run("func f(a) { print a; } f();");
    assert_eq!(
        r.errors,
        vec!["Error: Incorrect number of arguments for function 'f'".to_string()]
    );
    assert!(r.output.is_empty());
}

#[test]
fn redeclaring_a_function_overwrites_it() {
    assert_eq!(
        run_output("func f() { print \"a\"; } func f() { print \"b\"; } f();"),
        vec!["b".to_string()]
    );
}

#[test]
fn empty_string_is_falsy_nonempty_truthy() {
    assert_eq!(
        run_output("if (\"\") { print \"t\"; } else { print \"e\"; }"),
        vec!["e".to_string()]
    );
    assert_eq!(
        run_output("if (\"x\") { print \"t\"; } else { print \"e\"; }"),
        vec!["t".to_string()]
    );
}

#[test]
fn implicit_declaration_in_block_does_not_escape() {
    let r = run("if (1) { y = 5; } print y;");
    assert_eq!(r.errors, vec!["Error: Undefined variable 'y'".to_string()]);
    assert_eq!(r.output, vec!["0".to_string()]);
}

#[test]
fn function_sees_copy_of_caller_scope() {
    // the call reads the caller's variable through the captured copy,
    // and its assignment does not leak back
    assert_eq!(
        run_output("x = 1; func f() { print x; x = 2; } f(); print x;"),
        vec!["1".to_string(), "1".to_string()]
    );
}

#[test]
fn runaway_recursion_stops_when_fuel_runs_out() {
    let tokens = lex("func f() { f(); } f();");
    let ast = parse(&tokens).expect("program should parse");
    let r = interpret(&ast, 10);
    assert!(!r.live);
}

#[test]
fn division_by_zero_is_infinite() {
    assert_eq!(run_output("print 1 / 0;"), vec!["inf".to_string()]);
    assert_eq!(run_output("print -1 / 0;"), vec!["-inf".to_string()]);
}

#[test]
fn empty_source_lexes_to_lone_end_marker() {
    let tokens = lex("");
    assert_eq!(tokens.len(), 1);
    assert!(matches!(tokens[0], Token::EOF));
}

#[test]
fn scanner_classifies_keywords_and_operators() {
    let tokens = lex("print if else func foo == != <= >= = ! < > + - * / , ; ( ) { }");
    assert!(matches!(tokens[0], Token::Print));
    assert!(matches!(tokens[1], Token::If));
    assert!(matches!(tokens[2], Token::Else));
    assert!(matches!(tokens[3], Token::Function));
    assert!(matches!(tokens[4], Token::Identifier(ref s) if s == "foo"));
    assert!(matches!(tokens[5], Token::EqualEqual));
    assert!(matches!(tokens[6], Token::NotEqual));
    assert!(matches!(tokens[7], Token::LessEqual));
    assert!(matches!(tokens[8], Token::GreaterEqual));
    assert!(matches!(tokens[9], Token::Assign));
    assert!(matches!(tokens[10], Token::Bang));
    assert!(matches!(tokens[11], Token::LessThan));
    assert!(matches!(tokens[12], Token::GreaterThan));
    assert!(matches!(tokens[13], Token::Plus));
    assert!(matches!(tokens[14], Token::Minus));
    assert!(matches!(tokens[15], Token::Star));
    assert!(matches!(tokens[16], Token::Slash));
    assert!(matches!(tokens[17], Token::Comma));
    assert!(matches!(tokens[18], Token::Semicolon));
    assert!(matches!(tokens[19], Token::LeftParen));
    assert!(matches!(tokens[20], Token::RightParen));
    assert!(matches!(tokens[21], Token::LeftBrace));
    assert!(matches!(tokens[22], Token::RightBrace));
    assert!(matches!(tokens[23], Token::EOF));
    assert_eq!(tokens.len(), 24);
}

#[test]
fn scanner_number_and_string_literals() {
    let tokens = lex("42 1.5 \"hello world\"");
    assert!(matches!(tokens[0], Token::NumberLiteral(b) if b == 42.0f64.to_bits()));
    assert!(matches!(tokens[1], Token::NumberLiteral(b) if b == 1.5f64.to_bits()));
    assert!(matches!(tokens[2], Token::StringLiteral(ref s) if s == "hello world"));
}

#[test]
fn malformed_numeral_falls_back_to_zero() {
    let tokens = lex("1.2.3");
    assert!(matches!(tokens[0], Token::NumberLiteral(b) if b == 0.0f64.to_bits()));
}

#[test]
fn unterminated_string_ends_at_end_of_input() {
    let tokens = lex("\"abc");
    assert!(matches!(tokens[0], Token::StringLiteral(ref s) if s == "abc"));
    assert!(matches!(tokens[1], Token::EOF));
}

#[test]
fn unknown_characters_are_discarded() {
    let tokens = lex("# @ 1");
    assert!(matches!(tokens[0], Token::NumberLiteral(b) if b == 1.0f64.to_bits()));
    assert_eq!(tokens.len(), 2);
}

#[test]
fn parse_error_missing_expression() {
    let tokens = lex("print ;");
    let e = parse(&tokens).unwrap_err();
    assert_eq!(e, "Expected an expression.");
}

#[test]
fn parse_error_names_expected_and_found() {
    let tokens = lex("print 1");
    let e = parse(&tokens).unwrap_err();
    assert_eq!(e, "Expected token Semicolon, found EOF");
}

#[test]
fn parse_error_invalid_assignment_target() {
    let tokens = lex("x + 1 = 2;");
    let e = parse(&tokens).unwrap_err();
    assert_eq!(e, "Invalid assignment target.");
}

#[test]
fn parsing_is_deterministic() {
    let tokens = lex("x = 1; if (x) { print x + 2 * 3; }");
    let a = parse(&tokens);
    let b = parse(&tokens);
    assert_eq!(format!("{:?}", a), format!("{:?}", b));
}

#[test]
fn bare_semicolons_are_empty_statements() {
    assert_eq!(run_output(";;; print 1; ;"), vec!["1".to_string()]);
}

#[test]
fn nested_blocks_see_outer_variables() {
    assert_eq!(
        run_output("x = 3; if (1) { if (x) { print x; } }"),
        vec!["3".to_string()]
    );
}
