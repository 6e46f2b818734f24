use astra::grammar::{Diagnostic, Expected};
use astra::emitter::CompileErrorKind;
use astra::repl::{eval, is_complete, Evaluation};
use astra::token::{Token, TokenKind};
use astra::vm::{Fault, Status};

fn value_of(source: &str) -> u16 {
    match eval(&String::from(source), 10_000) {
        Evaluation::Ran { status: Status::Halted, value } => value,
        other => panic!("{:?} for {:?}", other, source),
    }
}

#[test]
fn arithmetic_follows_precedence() {
    assert_eq!(value_of("1 + 2 * 3"), 7);
    assert_eq!(value_of("1 * 2 + 3"), 5);
    assert_eq!(value_of("(1 + 2) * 3"), 9);
    assert_eq!(value_of("10 - 4 - 3"), 3);
    assert_eq!(value_of("10 - (4 - 3)"), 9);
    assert_eq!(value_of("17 % 5"), 2);
    assert_eq!(value_of("17 / 5"), 3);
}

#[test]
fn sums_wrap_in_a_whole_program() {
    assert_eq!(value_of("let a = 60000; let b = 10000; a + b"), 4464);
    assert_eq!(value_of("0 - 1"), 65535);
    assert_eq!(value_of("-1"), 65535);
    assert_eq!(value_of("256 * 256"), 0);
}

#[test]
fn comparisons_and_negation() {
    assert_eq!(value_of("1 < 2"), 1);
    assert_eq!(value_of("2 < 1"), 0);
    assert_eq!(value_of("2 <= 2"), 1);
    assert_eq!(value_of("3 >= 4"), 0);
    assert_eq!(value_of("3 > 2"), 1);
    assert_eq!(value_of("1 == 1"), 1);
    assert_eq!(value_of("1 != 1"), 0);
    assert_eq!(value_of("!true"), 0);
    assert_eq!(value_of("!false"), 1);
    assert_eq!(value_of("!5"), 0);
    assert_eq!(value_of("1 + 1 == 2"), 1);
}

#[test]
fn the_value_is_that_of_the_last_expression_statement() {
    assert_eq!(value_of("1; 2; 3"), 3);
    assert_eq!(value_of("5; let x = 9;"), 5);
    assert_eq!(value_of(""), 0);
    assert_eq!(value_of("let x = 9;"), 0);
}

#[test]
fn a_return_at_the_top_level_ends_the_program() {
    assert_eq!(value_of("return 4; 5"), 4);
    assert_eq!(value_of("7; return;"), 0);
}

#[test]
fn conditionals_take_one_branch() {
    assert_eq!(value_of("if (1 < 2) { 10 } else { 20 }"), 10);
    assert_eq!(value_of("if (2 < 1) { 10 } else { 20 }"), 20);
    assert_eq!(value_of("if (false) { 10 }"), 0);
    assert_eq!(value_of("if (true) { 10 }"), 10);
    assert_eq!(value_of("1 + if (true) { 2 } else { 3 }"), 3);
    assert_eq!(value_of("let x = 1; if (true) { let x = 2; } x"), 2);
    assert_eq!(value_of("let x = 1; if (false) { let x = 2; } x"), 1);
    assert_eq!(value_of("if (true) { if (false) { 1 } else { 2 } } else { 3 }"), 2);
}

#[test]
fn functions_are_called_with_their_arguments() {
    assert_eq!(value_of("let add = fun(a, b) { a + b }; add(2, 3)"), 5);
    assert_eq!(value_of("let add = fun(a, b) { return a - b; }; add(7, 3) * 2"), 8);
    assert_eq!(value_of("fun(x) { x * x }(12)"), 144);
    assert_eq!(value_of("let k = fun() { 42 }; k() + k()"), 84);
    assert_eq!(
        value_of("let twice = fun(f, x) { f(f(x)) }; let inc = fun(n) { n + 1 }; twice(inc, 5)"),
        7
    );
    assert_eq!(value_of("let first = fun(a, b) { a }; first(1, 2)"), 1);
}

#[test]
fn division_by_zero_is_a_fault() {
    assert_eq!(
        eval(&String::from("5; 1 / 0"), 1000),
        Evaluation::Ran { status: Status::Faulted(Fault::DivisionByZero), value: 5 }
    );
    assert_eq!(
        eval(&String::from("1 % (2 - 2)"), 1000),
        Evaluation::Ran { status: Status::Faulted(Fault::DivisionByZero), value: 0 }
    );
}

#[test]
fn endless_recursion_is_a_fault() {
    assert_eq!(
        eval(&String::from("let f = fun(g) { g(g) }; f(f)"), 100_000),
        Evaluation::Ran { status: Status::Faulted(Fault::CallStackOverflow), value: 0 }
    );
}

#[test]
fn a_spent_budget_leaves_the_machine_running() {
    assert_eq!(
        eval(&String::from("1 + 2"), 3),
        Evaluation::Ran { status: Status::Running, value: 0 }
    );
    assert_eq!(
        eval(&String::from("1 + 2"), 4),
        Evaluation::Ran { status: Status::Running, value: 3 }
    );
    assert_eq!(
        eval(&String::from("1 + 2"), 5),
        Evaluation::Ran { status: Status::Halted, value: 3 }
    );
    assert_eq!(eval(&String::from("1"), 0), Evaluation::Ran { status: Status::Running, value: 0 });
}

#[test]
fn text_that_is_no_program_is_rejected_with_its_diagnostics() {
    assert_eq!(
        eval(&String::from("let ; let x = 1;"), 1000),
        Evaluation::Rejected(vec![Diagnostic {
            expected: Expected::Kind(TokenKind::Name),
            found: Token::SemiColon,
        }])
    );
    assert_eq!(
        eval(&String::from("1 + $"), 1000),
        Evaluation::Rejected(vec![Diagnostic {
            expected: Expected::Expression,
            found: Token::Illegal,
        }])
    );
}

#[test]
fn a_program_that_does_not_compile_is_refused() {
    match eval(&String::from("x + 1"), 1000) {
        Evaluation::Refused(error) => {
            assert_eq!(error.kind, CompileErrorKind::UndeclaredName);
            assert_eq!(error.token, Token::Name { name: "x".into() });
        }
        other => panic!("{:?}", other),
    }
}

#[test]
fn each_evaluation_starts_afresh() {
    assert_eq!(value_of("let x = 5; x"), 5);
    match eval(&String::from("x"), 1000) {
        Evaluation::Refused(error) => assert_eq!(error.kind, CompileErrorKind::UndeclaredName),
        other => panic!("{:?}", other),
    }
}

#[test]
fn input_is_complete_when_delimiters_are_closed_and_the_statement_ends() {
    assert!(is_complete(&String::from("")));
    assert!(is_complete(&String::from("  \n\t")));
    assert!(is_complete(&String::from("let x = 1;")));
    assert!(is_complete(&String::from("f(1, (2 + 3));")));
    assert!(is_complete(&String::from("if (a) { b } else { c }")));
    assert!(is_complete(&String::from("[1, 2];")));
    assert!(is_complete(&String::from("fun(a) {\n  a\n}\n")));
    assert!(is_complete(&String::from("let f = fun(a) {\n  a;\n};\n")));
}

#[test]
fn input_with_an_open_delimiter_is_not_complete() {
    assert!(!is_complete(&String::from("fun(a) {")));
    assert!(!is_complete(&String::from("f(1,")));
    assert!(!is_complete(&String::from("[")));
    assert!(!is_complete(&String::from("if (a) { if (b) { c }")));
    assert!(!is_complete(&String::from("f(1;")));
    assert!(!is_complete(&String::from("{ ( } ;")));
}

#[test]
fn input_whose_statement_has_not_ended_is_not_complete() {
    assert!(!is_complete(&String::from("let x = 1")));
    assert!(!is_complete(&String::from("1 + 2")));
    assert!(!is_complete(&String::from("1 +")));
    assert!(!is_complete(&String::from("f(1)")));
    assert!(!is_complete(&String::from("x; y")));
    assert!(is_complete(&String::from("x; y;")));
}

#[test]
fn a_stray_closing_delimiter_does_not_keep_the_reader_waiting() {
    assert!(is_complete(&String::from("}")));
    assert!(is_complete(&String::from(") + 1;")));
    assert!(!is_complete(&String::from(") (;")));
    assert!(is_complete(&String::from("(];")));
}

#[test]
fn the_message_of_a_diagnostic() {
    let diagnostic = Diagnostic {
        expected: Expected::Kind(TokenKind::SemiColon),
        found: Token::Let,
    };
    assert_eq!(diagnostic.message(), "expected `;`, found `let`");
    let diagnostic = Diagnostic {
        expected: Expected::Kind(TokenKind::Name),
        found: Token::Int { value: "12".into() },
    };
    assert_eq!(diagnostic.message(), "expected a name, found `12`");
    let diagnostic = Diagnostic { expected: Expected::Expression, found: Token::EndOfFile };
    assert_eq!(diagnostic.message(), "expected an expression, found `EOF`");
    assert_eq!(Expected::Kind(TokenKind::Int).describe(), "an integer");
    assert_eq!(Expected::Kind(TokenKind::Float).describe(), "a float");
    assert_eq!(Expected::Kind(TokenKind::String).describe(), "a string");
    assert_eq!(Expected::Kind(TokenKind::RightBrace).describe(), "`}`");
}
