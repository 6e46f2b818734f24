use astra::ast::{Expression, Program, Statement};
use astra::grammar::{Diagnostic, Expected, Precedence};
use astra::lexer::Lexer;
use astra::parser::Parser;
use astra::token::{Token, TokenKind};

fn parse(source: &str) -> (Program, Vec<Diagnostic>) {
    let lexer = Lexer::new(String::from(source));
    let mut parser = Parser::new(lexer);
    parser.parse_program()
}

fn parse_clean(source: &str) -> Program {
    let (program, diagnostics) = parse(source);
    assert_eq!(diagnostics, vec![]);
    program
}

fn ident(text: &str) -> Expression {
    Expression::Identifier { token: Token::Name { name: text.into() } }
}

fn literal(text: &str) -> Expression {
    Expression::IntegerLiteral { token: Token::Int { value: text.into() } }
}

fn infix(token: Token, left: Expression, right: Expression) -> Expression {
    Expression::Infix { token, left: Box::new(left), right: Box::new(right) }
}

fn prefix(token: Token, operand: Expression) -> Expression {
    Expression::Prefix { token, operand: Box::new(operand) }
}

fn only_expression(program: Program) -> Expression {
    let mut statements = program.statements;
    assert_eq!(statements.len(), 1);
    match statements.remove(0) {
        Statement::Expression { expression } => expression,
        other => panic!("not an expression statement: {:?}", other),
    }
}

#[test]
fn product_binds_tighter_than_sum_on_the_right() {
    assert_eq!(parse_clean("1 + 2 * 3"), parse_clean("1 + (2 * 3)"));
    assert_ne!(parse_clean("1 + 2 * 3"), parse_clean("(1 + 2) * 3"));
    assert_eq!(
        only_expression(parse_clean("1 + 2 * 3")),
        infix(Token::Plus, literal("1"), infix(Token::Star, literal("2"), literal("3")))
    );
}

#[test]
fn product_binds_tighter_than_sum_on_the_left() {
    assert_eq!(parse_clean("1 * 2 + 3"), parse_clean("(1 * 2) + 3"));
    assert_ne!(parse_clean("1 * 2 + 3"), parse_clean("1 * (2 + 3)"));
    assert_eq!(
        only_expression(parse_clean("1 * 2 + 3")),
        infix(Token::Plus, infix(Token::Star, literal("1"), literal("2")), literal("3"))
    );
}

#[test]
fn equal_precedence_associates_to_the_left() {
    assert_eq!(parse_clean("1 - 2 - 3"), parse_clean("(1 - 2) - 3"));
    assert_ne!(parse_clean("1 - 2 - 3"), parse_clean("1 - (2 - 3)"));
    assert_eq!(parse_clean("8 / 4 * 2 % 3"), parse_clean("((8 / 4) * 2) % 3"));
    assert_eq!(parse_clean("a + b - c + d"), parse_clean("((a + b) - c) + d"));
    assert_eq!(parse_clean("a == b != c"), parse_clean("(a == b) != c"));
    assert_eq!(parse_clean("a < b >= c"), parse_clean("(a < b) >= c"));
}

#[test]
fn the_levels_are_ordered() {
    assert_eq!(
        parse_clean("a == b < c + d * -e"),
        parse_clean("a == (b < (c + (d * (-e))))")
    );
    assert_eq!(
        parse_clean("-a * b + c < d == e"),
        parse_clean("((((-a) * b) + c) < d) == e")
    );
    assert_eq!(parse_clean("a + b(c) * d"), parse_clean("a + ((b(c)) * d)"));
    assert_eq!(parse_clean("-f(x)"), parse_clean("-(f(x))"));
    assert!(Precedence::Lowest.rank() < Precedence::Equals.rank());
    assert!(Precedence::Equals.rank() < Precedence::Comparison.rank());
    assert!(Precedence::Comparison.rank() < Precedence::Sum.rank());
    assert!(Precedence::Sum.rank() < Precedence::Product.rank());
    assert!(Precedence::Product.rank() < Precedence::Prefix.rank());
    assert!(Precedence::Prefix.rank() < Precedence::Call.rank());
}

#[test]
fn binding_power_of_each_operator() {
    assert_eq!(Precedence::of_kind(TokenKind::EqualEqual), Precedence::Equals);
    assert_eq!(Precedence::of_kind(TokenKind::NotEqual), Precedence::Equals);
    assert_eq!(Precedence::of_kind(TokenKind::Less), Precedence::Comparison);
    assert_eq!(Precedence::of_kind(TokenKind::Greater), Precedence::Comparison);
    assert_eq!(Precedence::of_kind(TokenKind::LessEqual), Precedence::Comparison);
    assert_eq!(Precedence::of_kind(TokenKind::GreaterEqual), Precedence::Comparison);
    assert_eq!(Precedence::of_kind(TokenKind::Plus), Precedence::Sum);
    assert_eq!(Precedence::of_kind(TokenKind::Minus), Precedence::Sum);
    assert_eq!(Precedence::of_kind(TokenKind::Star), Precedence::Product);
    assert_eq!(Precedence::of_kind(TokenKind::Slash), Precedence::Product);
    assert_eq!(Precedence::of_kind(TokenKind::Percent), Precedence::Product);
    assert_eq!(Precedence::of_kind(TokenKind::LeftParen), Precedence::Call);
    assert_eq!(Precedence::of_kind(TokenKind::SemiColon), Precedence::Lowest);
    assert_eq!(Precedence::of_kind(TokenKind::AmperAmper), Precedence::Lowest);
    assert_eq!(Precedence::of_kind(TokenKind::EndOfFile), Precedence::Lowest);
}

#[test]
fn prefix_operators_take_their_operand_at_prefix_level() {
    assert_eq!(
        only_expression(parse_clean("-a * b")),
        infix(Token::Star, prefix(Token::Minus, ident("a")), ident("b"))
    );
    assert_eq!(
        only_expression(parse_clean("!!true")),
        prefix(
            Token::Bang,
            prefix(Token::Bang, Expression::BooleanLiteral { token: Token::True })
        )
    );
    assert_eq!(
        only_expression(parse_clean("- - 1")),
        prefix(Token::Minus, prefix(Token::Minus, literal("1")))
    );
}

#[test]
fn parentheses_reset_to_the_lowest_level() {
    assert_eq!(
        only_expression(parse_clean("-(a + b)")),
        prefix(Token::Minus, infix(Token::Plus, ident("a"), ident("b")))
    );
    assert_eq!(parse_clean("((((x))))"), parse_clean("x"));
    assert_eq!(
        only_expression(parse_clean("(1 + 2) * 3")),
        infix(Token::Star, infix(Token::Plus, literal("1"), literal("2")), literal("3"))
    );
}

#[test]
fn a_broken_statement_leaves_a_diagnostic_and_parsing_goes_on() {
    let (program, diagnostics) = parse("let ; let x = 1;");
    assert_eq!(
        diagnostics,
        vec![Diagnostic { expected: Expected::Kind(TokenKind::Name), found: Token::SemiColon }]
    );
    assert_eq!(
        program.statements,
        vec![Statement::Let {
            token: Token::Let,
            name: Token::Name { name: "x".into() },
            value: literal("1"),
        }]
    );
}

#[test]
fn one_pass_reports_every_broken_statement() {
    let (program, diagnostics) = parse("let = 1; let y 2; 3 + ; let z = 4;");
    assert_eq!(
        diagnostics,
        vec![
            Diagnostic { expected: Expected::Kind(TokenKind::Name), found: Token::Equal },
            Diagnostic {
                expected: Expected::Kind(TokenKind::Equal),
                found: Token::Int { value: "2".into() },
            },
            Diagnostic { expected: Expected::Expression, found: Token::SemiColon },
        ]
    );
    assert_eq!(
        program.statements,
        vec![Statement::Let {
            token: Token::Let,
            name: Token::Name { name: "z".into() },
            value: literal("4"),
        }]
    );
}

#[test]
fn recovery_resumes_behind_a_closing_brace() {
    let (program, diagnostics) = parse("let } x");
    assert_eq!(
        diagnostics,
        vec![Diagnostic { expected: Expected::Kind(TokenKind::Name), found: Token::RightBrace }]
    );
    assert_eq!(program.statements, vec![Statement::Expression { expression: ident("x") }]);
}

#[test]
fn malformed_input_never_aborts() {
    let sources = vec![
        ")))", "(((", "}{", ";;;;", "let", "let x", "let x =", "let x = 1", "return", "if", "if (",
        "if (x) {", "fun", "fun(", "fun(a,", "fun(a,)", "f(", "f(1,", "f(1,)", "1 +", "* 2", "@",
        "a && b", "else", "= = =", "{ }", "[1, 2]", "a.b", "if x { 1 } else", "-", "!",
    ];
    for source in sources {
        let (_, diagnostics) = parse(source);
        assert!(!diagnostics.is_empty(), "no diagnostic for {:?}", source);
    }
}

#[test]
fn a_missing_token_is_reported_at_the_end_of_file() {
    let (program, diagnostics) = parse("(1 + 2");
    assert_eq!(program.statements, vec![]);
    assert_eq!(
        diagnostics,
        vec![Diagnostic {
            expected: Expected::Kind(TokenKind::RightParen),
            found: Token::EndOfFile,
        }]
    );
    let (_, diagnostics) = parse("let x = 1");
    assert_eq!(
        diagnostics,
        vec![Diagnostic { expected: Expected::Kind(TokenKind::SemiColon), found: Token::EndOfFile }]
    );
}

#[test]
fn an_illegal_character_is_reported_by_the_parser() {
    let (program, diagnostics) = parse("let x = @; 7;");
    assert_eq!(
        diagnostics,
        vec![Diagnostic { expected: Expected::Expression, found: Token::Illegal }]
    );
    assert_eq!(program.statements, vec![Statement::Expression { expression: literal("7") }]);
}

#[test]
fn an_empty_program() {
    let (program, diagnostics) = parse("");
    assert_eq!(program.statements, vec![]);
    assert_eq!(diagnostics, vec![]);
    assert_eq!(program.token_literal(), Token::EndOfFile);
}

#[test]
fn the_token_of_a_program_is_that_of_its_first_statement() {
    assert_eq!(parse_clean("let x = 1; x").token_literal(), Token::Let);
    assert_eq!(parse_clean("return;").token_literal(), Token::Return);
    assert_eq!(parse_clean("x + 1").token_literal(), Token::Plus);
    assert_eq!(parse_clean("42").token_literal(), Token::Int { value: "42".into() });
}

#[test]
fn let_and_both_forms_of_return() {
    let program = parse_clean("let total = a + 1; return; return total;");
    assert_eq!(
        program.statements,
        vec![
            Statement::Let {
                token: Token::Let,
                name: Token::Name { name: "total".into() },
                value: infix(Token::Plus, ident("a"), literal("1")),
            },
            Statement::Return { token: Token::Return, result: None },
            Statement::Return { token: Token::Return, result: Some(ident("total")) },
        ]
    );
    assert_eq!(program.statements[0].token(), &Token::Let);
    assert_eq!(program.statements[2].token(), &Token::Return);
}

#[test]
fn the_semicolon_after_an_expression_is_optional() {
    assert_eq!(parse_clean("a; b"), parse_clean("a b;"));
    assert_eq!(parse_clean("a; b").statements.len(), 2);
    assert_eq!(parse_clean("1 2 3").statements.len(), 3);
}

#[test]
fn every_literal() {
    assert_eq!(only_expression(parse_clean("x")), ident("x"));
    assert_eq!(only_expression(parse_clean("12")), literal("12"));
    assert_eq!(
        only_expression(parse_clean("true")),
        Expression::BooleanLiteral { token: Token::True }
    );
    assert_eq!(
        only_expression(parse_clean("false")),
        Expression::BooleanLiteral { token: Token::False }
    );
}

#[test]
fn calls_with_their_arguments_in_order() {
    assert_eq!(
        only_expression(parse_clean("add(1, 2 * 3, x)")),
        Expression::Call {
            token: Token::LeftParen,
            callee: Box::new(ident("add")),
            arguments: vec![
                literal("1"),
                infix(Token::Star, literal("2"), literal("3")),
                ident("x"),
            ],
        }
    );
    assert_eq!(
        only_expression(parse_clean("f()")),
        Expression::Call {
            token: Token::LeftParen,
            callee: Box::new(ident("f")),
            arguments: vec![],
        }
    );
    assert_eq!(
        only_expression(parse_clean("f(a)(b)")),
        Expression::Call {
            token: Token::LeftParen,
            callee: Box::new(Expression::Call {
                token: Token::LeftParen,
                callee: Box::new(ident("f")),
                arguments: vec![ident("a")],
            }),
            arguments: vec![ident("b")],
        }
    );
}

#[test]
fn function_literals() {
    assert_eq!(
        only_expression(parse_clean("fun(a, b) { return a + b; }")),
        Expression::FunctionLiteral {
            token: Token::Fun,
            parameters: vec![Token::Name { name: "a".into() }, Token::Name { name: "b".into() }],
            body: vec![Statement::Return {
                token: Token::Return,
                result: Some(infix(Token::Plus, ident("a"), ident("b"))),
            }],
        }
    );
    assert_eq!(
        only_expression(parse_clean("fun() { }")),
        Expression::FunctionLiteral { token: Token::Fun, parameters: vec![], body: vec![] }
    );
}

#[test]
fn conditionals_with_and_without_else() {
    assert_eq!(
        only_expression(parse_clean("if (a < b) { a } else { b; }")),
        Expression::If {
            token: Token::If,
            condition: Box::new(infix(Token::Less, ident("a"), ident("b"))),
            consequence: vec![Statement::Expression { expression: ident("a") }],
            alternative: Some(vec![Statement::Expression { expression: ident("b") }]),
        }
    );
    assert_eq!(
        only_expression(parse_clean("if x { let y = 1; y }")),
        Expression::If {
            token: Token::If,
            condition: Box::new(ident("x")),
            consequence: vec![
                Statement::Let {
                    token: Token::Let,
                    name: Token::Name { name: "y".into() },
                    value: literal("1"),
                },
                Statement::Expression { expression: ident("y") },
            ],
            alternative: None,
        }
    );
}

#[test]
fn the_token_of_each_expression() {
    assert_eq!(only_expression(parse_clean("a + b")).token(), &Token::Plus);
    assert_eq!(only_expression(parse_clean("-a")).token(), &Token::Minus);
    assert_eq!(only_expression(parse_clean("f(1)")).token(), &Token::LeftParen);
    assert_eq!(only_expression(parse_clean("if a { }")).token(), &Token::If);
    assert_eq!(only_expression(parse_clean("fun() { }")).token(), &Token::Fun);
    assert_eq!(only_expression(parse_clean("a")).token(), &Token::Name { name: "a".into() });
}

#[test]
fn an_unclosed_block_is_reported() {
    let (_, diagnostics) = parse("if x { 1");
    assert_eq!(
        diagnostics,
        vec![Diagnostic {
            expected: Expected::Kind(TokenKind::RightBrace),
            found: Token::EndOfFile,
        }]
    );
}

#[test]
fn a_parser_is_empty_after_parsing() {
    let lexer = Lexer::new(String::from("1; 2;"));
    let mut parser = Parser::new(lexer);
    let (first, _) = parser.parse_program();
    assert_eq!(first.statements.len(), 2);
    let (second, diagnostics) = parser.parse_program();
    assert_eq!(second.statements, vec![]);
    assert_eq!(diagnostics, vec![]);
}
