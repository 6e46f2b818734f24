//! The grammar, as functions on a sequence of tokens.
//!
//! Each function takes the tokens that are left, without the closing
//! `EndOfFile`, and gives what it parsed together with the tokens left after
//! it, or the diagnostic at which it gave up together with the tokens left
//! from the offending one. Expressions are parsed by precedence climbing.
//!
//! Where a function goes on behind what another has parsed, it first tests
//! that tokens were taken, which makes it plain that the recursion ends.
//! `lemma_statement_consumes` and its companions show that these tests
//! never fail. The laws of the grammar follow them: how a program unfolds
//! statement by statement, and how two operators group.

use crate::ast::{expr_views, stmt_views, ExprView, Expression, Statement, StmtView};
use crate::lexer::token_views;
use crate::token::{Token, TokenKind, TokenView};
use vstd::prelude::*;
use vstd::string::StringExecFns;

verus! {

/// The binding-power levels, lowest first.
#[derive(Clone, Copy, Debug, PartialEq, Eq, Structural)]
pub enum Precedence {
    Lowest,
    Equals,
    Comparison,
    Sum,
    Product,
    Prefix,
    Call,
}

impl Precedence {
    /// The level as a number, for comparing.
    pub open spec fn level(self) -> int {
        match self {
            Precedence::Lowest => 0,
            Precedence::Equals => 1,
            Precedence::Comparison => 2,
            Precedence::Sum => 3,
            Precedence::Product => 4,
            Precedence::Prefix => 5,
            Precedence::Call => 6,
        }
    }

    /// The level as a number, for comparing.
    pub fn rank(self) -> (r: u8)
        ensures
            r == self.level(),
    {
        match self {
            Precedence::Lowest => 0,
            Precedence::Equals => 1,
            Precedence::Comparison => 2,
            Precedence::Sum => 3,
            Precedence::Product => 4,
            Precedence::Prefix => 5,
            Precedence::Call => 6,
        }
    }

    /// The binding power of a token in infix position. A token that is no
    /// infix operator binds at the lowest level and so ends every
    /// expression.
    pub open spec fn of(kind: TokenKind) -> Precedence {
        match kind {
            TokenKind::EqualEqual | TokenKind::NotEqual => Precedence::Equals,
            TokenKind::Less
            | TokenKind::Greater
            | TokenKind::LessEqual
            | TokenKind::GreaterEqual => Precedence::Comparison,
            TokenKind::Plus | TokenKind::Minus => Precedence::Sum,
            TokenKind::Star | TokenKind::Slash | TokenKind::Percent => Precedence::Product,
            TokenKind::LeftParen => Precedence::Call,
            _ => Precedence::Lowest,
        }
    }

    /// The binding power of a token in infix position.
    pub fn of_kind(kind: TokenKind) -> (p: Precedence)
        ensures
            p == Precedence::of(kind),
    {
        match kind {
            TokenKind::EqualEqual | TokenKind::NotEqual => Precedence::Equals,
            TokenKind::Less
            | TokenKind::Greater
            | TokenKind::LessEqual
            | TokenKind::GreaterEqual => Precedence::Comparison,
            TokenKind::Plus | TokenKind::Minus => Precedence::Sum,
            TokenKind::Star | TokenKind::Slash | TokenKind::Percent => Precedence::Product,
            TokenKind::LeftParen => Precedence::Call,
            _ => Precedence::Lowest,
        }
    }
}

/// What the parser was looking for when it gave up.
#[derive(Clone, Copy, Debug, PartialEq, Eq, Structural)]
pub enum Expected {
    /// A token of one kind.
    Kind(TokenKind),
    /// The start of an expression.
    Expression,
}

/// A syntax error: what was expected, and the token found in its place.
#[derive(Debug, PartialEq)]
pub struct Diagnostic {
    pub expected: Expected,
    pub found: Token,
}

/// The mathematical value of a diagnostic.
pub struct DiagView {
    pub expected: Expected,
    pub found: TokenView,
}

impl View for Diagnostic {
    type V = DiagView;

    open spec fn view(&self) -> DiagView {
        DiagView { expected: self.expected, found: self.found@ }
    }
}

impl Expected {
    /// How a diagnostic names what was expected: a kind with a fixed
    /// spelling by that spelling between backticks, a kind that carries
    /// text by a word for it.
    pub open spec fn description(self) -> Seq<char> {
        match self {
            Expected::Expression => "an expression"@,
            Expected::Kind(TokenKind::Name) => "a name"@,
            Expected::Kind(TokenKind::Int) => "an integer"@,
            Expected::Kind(TokenKind::Float) => "a float"@,
            Expected::Kind(TokenKind::String) => "a string"@,
            Expected::Kind(kind) => TokenView::plain(kind).display(),
        }
    }

    /// How a diagnostic names what was expected.
    pub fn describe(self) -> (s: String)
        ensures
            s@ == self.description(),
    {
        match self {
            Expected::Expression => String::from_str("an expression"),
            Expected::Kind(TokenKind::Name) => String::from_str("a name"),
            Expected::Kind(TokenKind::Int) => String::from_str("an integer"),
            Expected::Kind(TokenKind::Float) => String::from_str("a float"),
            Expected::Kind(TokenKind::String) => String::from_str("a string"),
            Expected::Kind(kind) => Token::plain(kind).to_string(),
        }
    }
}

impl DiagView {
    /// The message of a diagnostic: what was expected, then what was
    /// found.
    pub open spec fn message(self) -> Seq<char> {
        "expected "@ + self.expected.description() + ", found "@ + self.found.display()
    }
}

impl Diagnostic {
    /// The message of this diagnostic: what was expected, then what was
    /// found.
    pub fn message(&self) -> (s: String)
        ensures
            s@ == self@.message(),
    {
        let mut s = String::from_str("expected ");
        s.append(self.expected.describe().as_str());
        s.append(", found ");
        s.append(self.found.to_string().as_str());
        s
    }
}

/// The mathematical values of a sequence of diagnostics.
pub open spec fn diag_views(diagnostics: Seq<Diagnostic>) -> Seq<DiagView> {
    Seq::new(diagnostics.len(), |i: int| diagnostics[i]@)
}

/// The tokens that are left to parse.
pub type Tokens = Seq<TokenView>;

/// The current token: the first that is left, or `EndOfFile` when none is.
pub open spec fn head(ts: Tokens) -> TokenView {
    if ts.len() > 0 {
        ts[0]
    } else {
        TokenView::plain(TokenKind::EndOfFile)
    }
}

/// The tokens after the current one. At the end nothing changes.
pub open spec fn tail(ts: Tokens) -> Tokens {
    if ts.len() > 0 {
        ts.subrange(1, ts.len() as int)
    } else {
        ts
    }
}

/// The diagnostic for the current token.
pub open spec fn unexpected(expected: Expected, ts: Tokens) -> DiagView {
    DiagView { expected, found: head(ts) }
}

/// Takes the current token if it is of the given kind.
pub open spec fn expect(ts: Tokens, kind: TokenKind) -> (Result<TokenView, DiagView>, Tokens) {
    if head(ts).kind == kind {
        (Ok(head(ts)), tail(ts))
    } else {
        (Err(unexpected(Expected::Kind(kind), ts)), ts)
    }
}

/// An expression at a binding-power level: a prefix or primary term, then
/// every infix operator that binds more tightly than the level.
pub open spec fn parse_expression(ts: Tokens, level: Precedence) -> (
    Result<ExprView, DiagView>,
    Tokens,
)
    decreases ts.len(), 1int,
{
    match parse_prefix(ts) {
        (Ok(left), rest) => if rest.len() < ts.len() {
            parse_infix(left, rest, level)
        } else {
            (Err(unexpected(Expected::Expression, rest)), rest)
        },
        (Err(d), rest) => (Err(d), rest),
    }
}

/// A prefix or primary term: a literal, an identifier, a prefix operator
/// with its operand, a parenthesized group, `if` or `fun`.
pub open spec fn parse_prefix(ts: Tokens) -> (Result<ExprView, DiagView>, Tokens)
    decreases ts.len(), 0int,
{
    let token = head(ts);
    let rest = tail(ts);
    match token.kind {
        TokenKind::Name => (Ok(ExprView::Identifier { token }), rest),
        TokenKind::Int => (Ok(ExprView::IntegerLiteral { token }), rest),
        TokenKind::Float => (Ok(ExprView::FloatLiteral { token }), rest),
        TokenKind::String => (Ok(ExprView::StringLiteral { token }), rest),
        TokenKind::True | TokenKind::False => (Ok(ExprView::BooleanLiteral { token }), rest),
        TokenKind::Bang | TokenKind::Minus => match parse_expression(rest, Precedence::Prefix) {
            (Ok(operand), after) => (
                Ok(ExprView::Prefix { token, operand: Box::new(operand) }),
                after,
            ),
            (Err(d), after) => (Err(d), after),
        },
        TokenKind::LeftParen => match parse_expression(rest, Precedence::Lowest) {
            (Ok(inner), after) => match expect(after, TokenKind::RightParen) {
                (Ok(_), end) => (Ok(inner), end),
                (Err(d), end) => (Err(d), end),
            },
            (Err(d), after) => (Err(d), after),
        },
        TokenKind::If => match parse_expression(rest, Precedence::Lowest) {
            (Ok(condition), after) => if after.len() < ts.len() {
                parse_branches(token, condition, after)
            } else {
                (Err(unexpected(Expected::Expression, after)), after)
            },
            (Err(d), after) => (Err(d), after),
        },
        TokenKind::Fun => match expect(rest, TokenKind::LeftParen) {
            (Ok(_), after) => match parse_parameters(after) {
                (Ok(parameters), at_body) => if at_body.len() < ts.len() {
                    match parse_block(at_body) {
                        (Ok(body), end) => (
                            Ok(ExprView::FunctionLiteral { token, parameters, body }),
                            end,
                        ),
                        (Err(d), end) => (Err(d), end),
                    }
                } else {
                    (Err(unexpected(Expected::Expression, at_body)), at_body)
                },
                (Err(d), at_body) => (Err(d), at_body),
            },
            (Err(d), after) => (Err(d), after),
        },
        _ => (Err(unexpected(Expected::Expression, ts)), ts),
    }
}

/// The branches of an `if` whose condition has been parsed: a block, and
/// after `else` a second block.
pub open spec fn parse_branches(token: TokenView, condition: ExprView, ts: Tokens) -> (
    Result<ExprView, DiagView>,
    Tokens,
)
    decreases ts.len(), 5int,
{
    match parse_block(ts) {
        (Ok(consequence), after) => if head(after).kind == TokenKind::Else {
            if after.len() <= ts.len() {
                match parse_block(tail(after)) {
                    (Ok(alternative), end) => (
                        Ok(
                            ExprView::If {
                                token,
                                condition: Box::new(condition),
                                consequence,
                                alternative: Some(alternative),
                            },
                        ),
                        end,
                    ),
                    (Err(d), end) => (Err(d), end),
                }
            } else {
                (Err(unexpected(Expected::Expression, after)), after)
            }
        } else {
            (
                Ok(
                    ExprView::If {
                        token,
                        condition: Box::new(condition),
                        consequence,
                        alternative: None,
                    },
                ),
                after,
            )
        },
        (Err(d), after) => (Err(d), after),
    }
}

/// The infix operators after a left operand, as long as they bind more
/// tightly than the level. Each right operand is parsed at the level of
/// its operator, so operators of equal power group to the left.
pub open spec fn parse_infix(left: ExprView, ts: Tokens, level: Precedence) -> (
    Result<ExprView, DiagView>,
    Tokens,
)
    decreases ts.len(), 0int,
{
    let token = head(ts);
    let power = Precedence::of(token.kind);
    if ts.len() > 0 && power.level() > level.level() {
        if token.kind == TokenKind::LeftParen {
            match parse_arguments(tail(ts)) {
                (Ok(arguments), rest) => if rest.len() < ts.len() {
                    parse_infix(
                        ExprView::Call { token, callee: Box::new(left), arguments },
                        rest,
                        level,
                    )
                } else {
                    (Err(unexpected(Expected::Expression, rest)), rest)
                },
                (Err(d), rest) => (Err(d), rest),
            }
        } else {
            match parse_expression(tail(ts), power) {
                (Ok(right), rest) => if rest.len() < ts.len() {
                    parse_infix(
                        ExprView::Infix { token, left: Box::new(left), right: Box::new(right) },
                        rest,
                        level,
                    )
                } else {
                    (Err(unexpected(Expected::Expression, rest)), rest)
                },
                (Err(d), rest) => (Err(d), rest),
            }
        }
    } else {
        (Ok(left), ts)
    }
}

/// The arguments of a call after its opening parenthesis, up to and with
/// the closing one.
pub open spec fn parse_arguments(ts: Tokens) -> (Result<Seq<ExprView>, DiagView>, Tokens)
    decreases ts.len(), 3int,
{
    if head(ts).kind == TokenKind::RightParen {
        (Ok(Seq::empty()), tail(ts))
    } else {
        parse_argument_list(ts, Seq::empty())
    }
}

/// One argument and those after it, separated by commas and closed by a
/// parenthesis; `done` holds the arguments before.
pub open spec fn parse_argument_list(ts: Tokens, done: Seq<ExprView>) -> (
    Result<Seq<ExprView>, DiagView>,
    Tokens,
)
    decreases ts.len(), 2int,
{
    match parse_expression(ts, Precedence::Lowest) {
        (Ok(argument), rest) => if head(rest).kind == TokenKind::Comma {
            if rest.len() <= ts.len() {
                parse_argument_list(tail(rest), done.push(argument))
            } else {
                (Err(unexpected(Expected::Expression, rest)), rest)
            }
        } else {
            match expect(rest, TokenKind::RightParen) {
                (Ok(_), end) => (Ok(done.push(argument)), end),
                (Err(d), end) => (Err(d), end),
            }
        },
        (Err(d), rest) => (Err(d), rest),
    }
}

/// The parameters of a function literal after the opening parenthesis, up
/// to and with the closing one.
pub open spec fn parse_parameters(ts: Tokens) -> (Result<Seq<TokenView>, DiagView>, Tokens) {
    if head(ts).kind == TokenKind::RightParen {
        (Ok(Seq::empty()), tail(ts))
    } else {
        parse_parameter_list(ts, Seq::empty())
    }
}

/// One parameter name and those after it, separated by commas and closed
/// by a parenthesis; `done` holds the names before.
pub open spec fn parse_parameter_list(ts: Tokens, done: Seq<TokenView>) -> (
    Result<Seq<TokenView>, DiagView>,
    Tokens,
)
    decreases ts.len(),
{
    match expect(ts, TokenKind::Name) {
        (Ok(name), rest) => if head(rest).kind == TokenKind::Comma {
            parse_parameter_list(tail(rest), done.push(name))
        } else {
            match expect(rest, TokenKind::RightParen) {
                (Ok(_), end) => (Ok(done.push(name)), end),
                (Err(d), end) => (Err(d), end),
            }
        },
        (Err(d), rest) => (Err(d), rest),
    }
}

/// A block: statements between braces.
pub open spec fn parse_block(ts: Tokens) -> (Result<Seq<StmtView>, DiagView>, Tokens)
    decreases ts.len(), 4int,
{
    match expect(ts, TokenKind::LeftBrace) {
        (Ok(_), rest) => parse_block_statements(rest, Seq::empty()),
        (Err(d), rest) => (Err(d), rest),
    }
}

/// The statements of a block up to and with its closing brace; `done`
/// holds the statements before.
pub open spec fn parse_block_statements(ts: Tokens, done: Seq<StmtView>) -> (
    Result<Seq<StmtView>, DiagView>,
    Tokens,
)
    decreases ts.len(), 3int,
{
    if head(ts).kind == TokenKind::RightBrace {
        (Ok(done), tail(ts))
    } else if ts.len() == 0 {
        (Err(unexpected(Expected::Kind(TokenKind::RightBrace), ts)), ts)
    } else {
        match parse_statement(ts) {
            (Ok(statement), rest) => if rest.len() < ts.len() {
                parse_block_statements(rest, done.push(statement))
            } else {
                (Err(unexpected(Expected::Expression, rest)), rest)
            },
            (Err(d), rest) => (Err(d), rest),
        }
    }
}

/// A statement: `let name = expression;`, `return;`, `return expression;`
/// or an expression, after which a semicolon is taken if there is one.
pub open spec fn parse_statement(ts: Tokens) -> (Result<StmtView, DiagView>, Tokens)
    decreases ts.len(), 2int,
{
    let token = head(ts);
    match token.kind {
        TokenKind::Let => match expect(tail(ts), TokenKind::Name) {
            (Ok(name), at_equal) => match expect(at_equal, TokenKind::Equal) {
                (Ok(_), at_value) => match parse_expression(at_value, Precedence::Lowest) {
                    (Ok(value), at_end) => match expect(at_end, TokenKind::SemiColon) {
                        (Ok(_), rest) => (Ok(StmtView::Let { token, name, value }), rest),
                        (Err(d), rest) => (Err(d), rest),
                    },
                    (Err(d), rest) => (Err(d), rest),
                },
                (Err(d), rest) => (Err(d), rest),
            },
            (Err(d), rest) => (Err(d), rest),
        },
        TokenKind::Return => if head(tail(ts)).kind == TokenKind::SemiColon {
            (Ok(StmtView::Return { token, result: None }), tail(tail(ts)))
        } else {
            match parse_expression(tail(ts), Precedence::Lowest) {
                (Ok(value), at_end) => match expect(at_end, TokenKind::SemiColon) {
                    (Ok(_), rest) => (Ok(StmtView::Return { token, result: Some(value) }), rest),
                    (Err(d), rest) => (Err(d), rest),
                },
                (Err(d), rest) => (Err(d), rest),
            }
        },
        _ => match parse_expression(ts, Precedence::Lowest) {
            (Ok(expression), at_end) => (
                Ok(StmtView::Expression { expression }),
                if head(at_end).kind == TokenKind::SemiColon {
                    tail(at_end)
                } else {
                    at_end
                },
            ),
            (Err(d), rest) => (Err(d), rest),
        },
    }
}

/// Where parsing resumes after a diagnostic: behind the next semicolon or
/// closing brace, or at the end if there is neither.
pub open spec fn synchronize(ts: Tokens) -> Tokens
    decreases ts.len(),
{
    if ts.len() == 0 {
        ts
    } else if head(ts).kind == TokenKind::SemiColon || head(ts).kind == TokenKind::RightBrace {
        tail(ts)
    } else {
        synchronize(tail(ts))
    }
}

/// The statements up to the end of the tokens. A statement that fails
/// leaves its diagnostic and parsing resumes behind the next statement
/// boundary; `done` and `errors` hold what came before.
pub open spec fn parse_statements(ts: Tokens, done: Seq<StmtView>, errors: Seq<DiagView>) -> (
    Seq<StmtView>,
    Seq<DiagView>,
)
    decreases ts.len(),
{
    if ts.len() == 0 {
        (done, errors)
    } else {
        match parse_statement(ts) {
            (Ok(statement), rest) => if rest.len() < ts.len() {
                parse_statements(rest, done.push(statement), errors)
            } else {
                (done, errors)
            },
            (Err(d), rest) => {
                let resume = synchronize(rest);
                if resume.len() < ts.len() {
                    parse_statements(resume, done, errors.push(d))
                } else {
                    (done, errors)
                }
            },
        }
    }
}

/// The program that a token sequence spells, with the diagnostics in the
/// order in which they arose.
pub open spec fn parse_program(ts: Tokens) -> (Seq<StmtView>, Seq<DiagView>) {
    parse_statements(ts, Seq::empty(), Seq::empty())
}

/// Parsing an expression never adds tokens, and a parsed expression has
/// taken at least one.
pub proof fn lemma_expression_consumes(ts: Tokens, level: Precedence)
    ensures
        parse_expression(ts, level).1.len() <= ts.len(),
        parse_expression(ts, level).0 is Ok ==> parse_expression(ts, level).1.len() < ts.len(),
    decreases ts.len(), 1int,
{
    lemma_prefix_consumes(ts);
    match parse_prefix(ts) {
        (Ok(left), rest) => {
            lemma_infix_consumes(left, rest, level);
        },
        (Err(_), _) => {},
    }
}

/// Parsing a prefix or primary term never adds tokens, and a parsed term
/// has taken at least one.
pub proof fn lemma_prefix_consumes(ts: Tokens)
    ensures
        parse_prefix(ts).1.len() <= ts.len(),
        parse_prefix(ts).0 is Ok ==> parse_prefix(ts).1.len() < ts.len(),
    decreases ts.len(), 0int,
{
    let token = head(ts);
    let rest = tail(ts);
    match token.kind {
        TokenKind::Bang | TokenKind::Minus => {
            lemma_expression_consumes(rest, Precedence::Prefix);
        },
        TokenKind::LeftParen => {
            lemma_expression_consumes(rest, Precedence::Lowest);
        },
        TokenKind::If => {
            lemma_expression_consumes(rest, Precedence::Lowest);
            match parse_expression(rest, Precedence::Lowest) {
                (Ok(condition), after) => {
                    lemma_branches_consume(token, condition, after);
                },
                (Err(_), _) => {},
            }
        },
        TokenKind::Fun => {
            match expect(rest, TokenKind::LeftParen) {
                (Ok(_), after) => {
                    lemma_parameters_consume(after);
                    match parse_parameters(after) {
                        (Ok(_), at_body) => {
                            lemma_block_consumes(at_body);
                        },
                        (Err(_), _) => {},
                    }
                },
                (Err(_), _) => {},
            }
        },
        _ => {},
    }
}

/// Parsing the branches of an `if` never adds tokens.
pub proof fn lemma_branches_consume(token: TokenView, condition: ExprView, ts: Tokens)
    ensures
        parse_branches(token, condition, ts).1.len() <= ts.len(),
    decreases ts.len(), 5int,
{
    lemma_block_consumes(ts);
    match parse_block(ts) {
        (Ok(_), after) => {
            if head(after).kind == TokenKind::Else {
                lemma_block_consumes(tail(after));
            }
        },
        (Err(_), _) => {},
    }
}

/// Parsing infix operators never adds tokens.
pub proof fn lemma_infix_consumes(left: ExprView, ts: Tokens, level: Precedence)
    ensures
        parse_infix(left, ts, level).1.len() <= ts.len(),
    decreases ts.len(), 0int,
{
    let token = head(ts);
    let power = Precedence::of(token.kind);
    if ts.len() > 0 && power.level() > level.level() {
        if token.kind == TokenKind::LeftParen {
            lemma_arguments_consume(tail(ts));
            match parse_arguments(tail(ts)) {
                (Ok(arguments), rest) => {
                    lemma_infix_consumes(
                        ExprView::Call { token, callee: Box::new(left), arguments },
                        rest,
                        level,
                    );
                },
                (Err(_), _) => {},
            }
        } else {
            lemma_expression_consumes(tail(ts), power);
            match parse_expression(tail(ts), power) {
                (Ok(right), rest) => {
                    lemma_infix_consumes(
                        ExprView::Infix { token, left: Box::new(left), right: Box::new(right) },
                        rest,
                        level,
                    );
                },
                (Err(_), _) => {},
            }
        }
    }
}

/// Parsing the arguments of a call never adds tokens, and parsed
/// arguments have taken at least the closing parenthesis.
pub proof fn lemma_arguments_consume(ts: Tokens)
    ensures
        parse_arguments(ts).1.len() <= ts.len(),
        parse_arguments(ts).0 is Ok ==> parse_arguments(ts).1.len() < ts.len(),
    decreases ts.len(), 3int,
{
    if head(ts).kind != TokenKind::RightParen {
        lemma_argument_list_consumes(ts, Seq::empty());
    }
}

/// Parsing a list of arguments never adds tokens, and a parsed list has
/// taken at least one.
pub proof fn lemma_argument_list_consumes(ts: Tokens, done: Seq<ExprView>)
    ensures
        parse_argument_list(ts, done).1.len() <= ts.len(),
        parse_argument_list(ts, done).0 is Ok ==> parse_argument_list(ts, done).1.len()
            < ts.len(),
    decreases ts.len(), 2int,
{
    lemma_expression_consumes(ts, Precedence::Lowest);
    match parse_expression(ts, Precedence::Lowest) {
        (Ok(argument), rest) => {
            if head(rest).kind == TokenKind::Comma {
                lemma_argument_list_consumes(tail(rest), done.push(argument));
            }
        },
        (Err(_), _) => {},
    }
}

/// Parsing the parameters of a function never adds tokens.
pub proof fn lemma_parameters_consume(ts: Tokens)
    ensures
        parse_parameters(ts).1.len() <= ts.len(),
{
    if head(ts).kind != TokenKind::RightParen {
        lemma_parameter_list_consumes(ts, Seq::empty());
    }
}

/// Parsing a list of parameters never adds tokens.
pub proof fn lemma_parameter_list_consumes(ts: Tokens, done: Seq<TokenView>)
    ensures
        parse_parameter_list(ts, done).1.len() <= ts.len(),
    decreases ts.len(),
{
    match expect(ts, TokenKind::Name) {
        (Ok(name), rest) => {
            if head(rest).kind == TokenKind::Comma {
                lemma_parameter_list_consumes(tail(rest), done.push(name));
            }
        },
        (Err(_), _) => {},
    }
}

/// Parsing a block never adds tokens, and a parsed block has taken at
/// least its braces.
pub proof fn lemma_block_consumes(ts: Tokens)
    ensures
        parse_block(ts).1.len() <= ts.len(),
        parse_block(ts).0 is Ok ==> parse_block(ts).1.len() < ts.len(),
    decreases ts.len(), 4int,
{
    match expect(ts, TokenKind::LeftBrace) {
        (Ok(_), rest) => {
            lemma_block_statements_consume(rest, Seq::empty());
        },
        (Err(_), _) => {},
    }
}

/// Parsing the statements of a block never adds tokens, and a closed
/// block has taken at least the closing brace.
pub proof fn lemma_block_statements_consume(ts: Tokens, done: Seq<StmtView>)
    ensures
        parse_block_statements(ts, done).1.len() <= ts.len(),
        parse_block_statements(ts, done).0 is Ok ==> parse_block_statements(ts, done).1.len()
            < ts.len(),
    decreases ts.len(), 3int,
{
    if head(ts).kind != TokenKind::RightBrace && ts.len() > 0 {
        lemma_statement_consumes(ts);
        match parse_statement(ts) {
            (Ok(statement), rest) => {
                lemma_block_statements_consume(rest, done.push(statement));
            },
            (Err(_), _) => {},
        }
    }
}

/// Parsing a statement never adds tokens, and a parsed statement has
/// taken at least one. So parsing always moves on, and the tests of
/// progress in the grammar never turn a result into a failure.
pub proof fn lemma_statement_consumes(ts: Tokens)
    ensures
        parse_statement(ts).1.len() <= ts.len(),
        parse_statement(ts).0 is Ok ==> parse_statement(ts).1.len() < ts.len(),
    decreases ts.len(), 2int,
{
    let token = head(ts);
    match token.kind {
        TokenKind::Let => {
            match expect(tail(ts), TokenKind::Name) {
                (Ok(_), at_equal) => match expect(at_equal, TokenKind::Equal) {
                    (Ok(_), at_value) => {
                        lemma_expression_consumes(at_value, Precedence::Lowest);
                    },
                    (Err(_), _) => {},
                },
                (Err(_), _) => {},
            }
        },
        TokenKind::Return => {
            if head(tail(ts)).kind != TokenKind::SemiColon {
                lemma_expression_consumes(tail(ts), Precedence::Lowest);
            }
        },
        _ => {
            lemma_expression_consumes(ts, Precedence::Lowest);
        },
    }
}

/// Resuming after a diagnostic never adds tokens and skips at least one
/// if any is left.
pub proof fn lemma_synchronize_consumes(ts: Tokens)
    ensures
        synchronize(ts).len() <= ts.len(),
        ts.len() > 0 ==> synchronize(ts).len() < ts.len(),
    decreases ts.len(),
{
    if ts.len() > 0 && !(head(ts).kind == TokenKind::SemiColon || head(ts).kind
        == TokenKind::RightBrace) {
        lemma_synchronize_consumes(tail(ts));
    }
}

/// Pushing onto the first of two sequences is pushing in front of the
/// second.
proof fn lemma_push_then_add<T>(a: Seq<T>, x: T, b: Seq<T>)
    ensures
        a.push(x) + b == a + (Seq::<T>::empty().push(x) + b),
        a + (Seq::<T>::empty() + b) == a + b,
        a + Seq::<T>::empty() == a,
{
    assert(a.push(x) + b =~= a + (Seq::<T>::empty().push(x) + b));
    assert(Seq::<T>::empty() + b =~= b);
    assert(a + Seq::<T>::empty() =~= a);
}

/// Every statement of a program is either parsed or leaves exactly one
/// diagnostic: what parsing adds to the statements and diagnostics before
/// is what it gives from nothing.
pub proof fn lemma_statements_extend(ts: Tokens, done: Seq<StmtView>, errors: Seq<DiagView>)
    ensures
        parse_statements(ts, done, errors).0 == done + parse_program(ts).0,
        parse_statements(ts, done, errors).1 == errors + parse_program(ts).1,
    decreases ts.len(),
{
    let nothing = Seq::<StmtView>::empty();
    let none = Seq::<DiagView>::empty();
    if ts.len() == 0 {
        lemma_push_then_add(done, arbitrary(), nothing);
        lemma_push_then_add(errors, arbitrary(), none);
    } else {
        lemma_statement_consumes(ts);
        let step = parse_statement(ts);
        match step.0 {
            Ok(statement) => {
                let rest = step.1;
                lemma_statements_extend(rest, done.push(statement), errors);
                lemma_statements_extend(rest, nothing.push(statement), none);
                lemma_push_then_add(done, statement, parse_program(rest).0);
                lemma_push_then_add(errors, arbitrary(), parse_program(rest).1);
            },
            Err(d) => {
                lemma_synchronize_consumes(step.1);
                let resume = synchronize(step.1);
                lemma_statements_extend(resume, done, errors.push(d));
                lemma_statements_extend(resume, nothing, none.push(d));
                lemma_push_then_add(errors, d, parse_program(resume).1);
                lemma_push_then_add(done, arbitrary(), parse_program(resume).0);
            },
        }
    }
}

/// How a program unfolds statement by statement. A statement that parses
/// is the first of the program, and the rest is parsed from behind it. A
/// statement that fails leaves its diagnostic as the first, and the rest
/// is parsed from behind the next statement boundary as if nothing had
/// come before: one broken statement costs no other.
pub proof fn lemma_program_unfolds(ts: Tokens)
    requires
        ts.len() > 0,
    ensures
        parse_statement(ts).0 matches Ok(statement) ==> parse_program(ts) == (
            seq![statement] + parse_program(parse_statement(ts).1).0,
            parse_program(parse_statement(ts).1).1,
        ),
        parse_statement(ts).0 matches Err(d) ==> parse_program(ts) == (
            parse_program(synchronize(parse_statement(ts).1)).0,
            seq![d] + parse_program(synchronize(parse_statement(ts).1)).1,
        ),
{
    lemma_statement_consumes(ts);
    let step = parse_statement(ts);
    match step.0 {
        Ok(statement) => {
            lemma_statements_extend(step.1, Seq::empty().push(statement), Seq::empty());
            lemma_push_then_add(Seq::<DiagView>::empty(), arbitrary(), parse_program(step.1).1);
            assert(Seq::<StmtView>::empty().push(statement) =~= seq![statement]);
            assert(Seq::<DiagView>::empty() + parse_program(step.1).1 =~= parse_program(
                step.1,
            ).1);
        },
        Err(d) => {
            lemma_synchronize_consumes(step.1);
            let resume = synchronize(step.1);
            lemma_statements_extend(resume, Seq::empty(), Seq::empty().push(d));
            assert(Seq::<DiagView>::empty().push(d) =~= seq![d]);
            assert(Seq::<StmtView>::empty() + parse_program(resume).0 =~= parse_program(
                resume,
            ).0);
        },
    }
}

/// Whether a token is an expression by itself: a name or a literal.
pub open spec fn is_atom(token: TokenView) -> bool {
    token.kind == TokenKind::Name || token.kind == TokenKind::Int || token.kind
        == TokenKind::Float || token.kind == TokenKind::String || token.kind == TokenKind::True
        || token.kind == TokenKind::False
}

/// The expression that a name or literal token is.
pub open spec fn atom(token: TokenView) -> ExprView {
    match token.kind {
        TokenKind::Name => ExprView::Identifier { token },
        TokenKind::Int => ExprView::IntegerLiteral { token },
        TokenKind::Float => ExprView::FloatLiteral { token },
        TokenKind::String => ExprView::StringLiteral { token },
        _ => ExprView::BooleanLiteral { token },
    }
}

/// Whether a token is a binary operator.
pub open spec fn is_binary_operator(kind: TokenKind) -> bool {
    Precedence::of(kind) != Precedence::Lowest && kind != TokenKind::LeftParen
}

/// An infix node.
pub open spec fn binary(token: TokenView, left: ExprView, right: ExprView) -> ExprView {
    ExprView::Infix { token, left: Box::new(left), right: Box::new(right) }
}

/// The tokens after the first of a sequence that starts with one.
proof fn lemma_tail_of_cons(first: TokenView, rest: Tokens)
    ensures
        head(seq![first] + rest) == first,
        tail(seq![first] + rest) == rest,
        (seq![first] + rest).len() == rest.len() + 1,
{
    assert(tail(seq![first] + rest) =~= rest);
}

/// Precedence and associativity, for any three operands and two binary
/// operators: `a op1 b op2 c` groups as `a op1 (b op2 c)` where the second
/// operator binds more tightly than the first, and as `(a op1 b) op2 c`
/// otherwise, so operators of equal power group to the left.
pub proof fn lemma_tighter_operator_binds_first(
    a: TokenView,
    op1: TokenView,
    b: TokenView,
    op2: TokenView,
    c: TokenView,
    rest: Tokens,
)
    requires
        is_atom(a),
        is_atom(b),
        is_atom(c),
        is_binary_operator(op1.kind),
        is_binary_operator(op2.kind),
        Precedence::of(head(rest).kind) == Precedence::Lowest,
    ensures
        parse_expression(
            seq![a] + (seq![op1] + (seq![b] + (seq![op2] + (seq![c] + rest)))),
            Precedence::Lowest,
        ) == (
            Ok::<ExprView, DiagView>(
                if Precedence::of(op2.kind).level() > Precedence::of(op1.kind).level() {
                    binary(op1, atom(a), binary(op2, atom(b), atom(c)))
                } else {
                    binary(op2, binary(op1, atom(a), atom(b)), atom(c))
                },
            ),
            rest,
        ),
{
    let t4 = seq![c] + rest;
    let t3 = seq![op2] + t4;
    let t2 = seq![b] + t3;
    let t1 = seq![op1] + t2;
    let t0 = seq![a] + t1;
    let p1 = Precedence::of(op1.kind);
    let p2 = Precedence::of(op2.kind);
    let lowest = Precedence::Lowest;
    lemma_tail_of_cons(a, t1);
    lemma_tail_of_cons(op1, t2);
    lemma_tail_of_cons(b, t3);
    lemma_tail_of_cons(op2, t4);
    lemma_tail_of_cons(c, rest);
    assert(parse_prefix(t0) == (Ok::<ExprView, DiagView>(atom(a)), t1));
    assert(parse_prefix(t2) == (Ok::<ExprView, DiagView>(atom(b)), t3));
    assert(parse_prefix(t4) == (Ok::<ExprView, DiagView>(atom(c)), rest));
    assert(parse_infix(atom(c), rest, p2) == (Ok::<ExprView, DiagView>(atom(c)), rest));
    assert(parse_expression(t4, p2) == (Ok::<ExprView, DiagView>(atom(c)), rest));
    if p2.level() > p1.level() {
        let inner = binary(op2, atom(b), atom(c));
        let whole = binary(op1, atom(a), inner);
        assert(parse_infix(inner, rest, p1) == (Ok::<ExprView, DiagView>(inner), rest));
        assert(parse_infix(atom(b), t3, p1) == (Ok::<ExprView, DiagView>(inner), rest));
        assert(parse_expression(t2, p1) == (Ok::<ExprView, DiagView>(inner), rest));
        assert(parse_infix(whole, rest, lowest) == (Ok::<ExprView, DiagView>(whole), rest));
        assert(parse_infix(atom(a), t1, lowest) == (Ok::<ExprView, DiagView>(whole), rest));
    } else {
        let inner = binary(op1, atom(a), atom(b));
        let whole = binary(op2, inner, atom(c));
        assert(parse_infix(atom(b), t3, p1) == (Ok::<ExprView, DiagView>(atom(b)), t3));
        assert(parse_expression(t2, p1) == (Ok::<ExprView, DiagView>(atom(b)), t3));
        assert(parse_infix(whole, rest, lowest) == (Ok::<ExprView, DiagView>(whole), rest));
        assert(parse_infix(inner, t3, lowest) == (Ok::<ExprView, DiagView>(whole), rest));
        assert(parse_infix(atom(a), t1, lowest) == (Ok::<ExprView, DiagView>(whole), rest));
    }
}

/// The mathematical value of what parsing one token gave.
pub open spec fn token_result(r: Result<Token, Diagnostic>) -> Result<TokenView, DiagView> {
    match r {
        Ok(t) => Ok(t@),
        Err(d) => Err(d@),
    }
}

/// The mathematical value of what parsing an expression gave.
pub open spec fn expr_result(r: Result<Expression, Diagnostic>) -> Result<ExprView, DiagView> {
    match r {
        Ok(e) => Ok(e@),
        Err(d) => Err(d@),
    }
}

/// The mathematical value of what parsing a statement gave.
pub open spec fn stmt_result(r: Result<Statement, Diagnostic>) -> Result<StmtView, DiagView> {
    match r {
        Ok(s) => Ok(s@),
        Err(d) => Err(d@),
    }
}

/// The mathematical value of what parsing a list of names gave.
pub open spec fn tokens_result(r: Result<Vec<Token>, Diagnostic>) -> Result<
    Seq<TokenView>,
    DiagView,
> {
    match r {
        Ok(v) => Ok(token_views(v@)),
        Err(d) => Err(d@),
    }
}

/// The mathematical value of what parsing a list of expressions gave.
pub open spec fn exprs_result(r: Result<Vec<Expression>, Diagnostic>) -> Result<
    Seq<ExprView>,
    DiagView,
> {
    match r {
        Ok(v) => Ok(expr_views(v@)),
        Err(d) => Err(d@),
    }
}

/// The mathematical value of what parsing a block gave.
pub open spec fn stmts_result(r: Result<Vec<Statement>, Diagnostic>) -> Result<
    Seq<StmtView>,
    DiagView,
> {
    match r {
        Ok(v) => Ok(stmt_views(v@)),
        Err(d) => Err(d@),
    }
}

} // verus!
