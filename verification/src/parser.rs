//! The parser: it pulls tokens from a lexer through a buffer of two and
//! builds the syntax tree that the grammar prescribes for them.

use crate::ast::{expr_views, stmt_views, Expression, Program, Statement};
use crate::grammar::{
    diag_views, expect, expr_result, exprs_result, head, parse_argument_list, parse_arguments,
    parse_block, parse_block_statements, parse_branches, parse_expression, parse_infix,
    parse_parameter_list, parse_parameters, parse_prefix, parse_program, parse_statement,
    parse_statements, stmt_result, stmts_result, synchronize, tail, token_result, tokens_result,
    unexpected, Diagnostic, Expected, Precedence, Tokens,
};
use crate::lexer::{lemma_rest_unfolds, token_views, tokens_from, Lexer};
use crate::token::{Token, TokenKind, TokenView};
use vstd::prelude::*;

verus! {

/// A parser over the tokens of one lexer.
pub struct Parser {
    lexer: Lexer,
    /// The token under examination.
    cur_token: Token,
    /// The token after it.
    peek_token: Token,
}

impl Parser {
    /// The buffer is consistent with the lexer: once the end of the input
    /// has entered the buffer, everything behind it is the end as well.
    pub closed spec fn wf(&self) -> bool {
        &&& self.lexer.wf()
        &&& (self.cur_token@.kind == TokenKind::EndOfFile ==> self.peek_token@.kind
            == TokenKind::EndOfFile)
        &&& (self.peek_token@.kind == TokenKind::EndOfFile ==> self.lexer@.rest().len() == 0)
    }

    /// The tokens that are left to parse, from the current one on, without
    /// the closing `EndOfFile`.
    pub closed spec fn stream(&self) -> Tokens {
        if self.cur_token@.kind == TokenKind::EndOfFile {
            Seq::empty()
        } else if self.peek_token@.kind == TokenKind::EndOfFile {
            seq![self.cur_token@]
        } else {
            seq![self.cur_token@, self.peek_token@] + self.lexer@.rest()
        }
    }

    /// The current token is the head of the stream, and it is `EndOfFile`
    /// exactly when the stream is empty.
    proof fn lemma_current(&self)
        requires
            self.wf(),
        ensures
            self.cur_token@ == head(self.stream()),
            self.cur_token@.kind == TokenKind::EndOfFile <==> self.stream().len() == 0,
    {
    }

    /// A parser at the first token of the given lexer.
    pub fn new(lexer: Lexer) -> (p: Parser)
        requires
            lexer.wf(),
        ensures
            p.wf(),
            p.stream() == lexer@.rest(),
    {
        let mut lexer = lexer;
        let ghost v0 = lexer@;
        proof {
            lemma_rest_unfolds(v0.input, v0.pos);
        }
        let cur_token = lexer.next_token().unwrap();
        let ghost v1 = lexer@;
        proof {
            lemma_rest_unfolds(v1.input, v1.pos);
        }
        let peek_token = lexer.next_token().unwrap();
        let p = Parser { lexer, cur_token, peek_token };
        proof {
            assert(p.stream() =~= v0.rest());
        }
        p
    }

    /// Shifts the buffer by one token and hands out the token that was
    /// current.
    fn next_token(&mut self) -> (t: Token)
        requires
            old(self).wf(),
        ensures
            final(self).wf(),
            final(self).stream() == tail(old(self).stream()),
            t@ == head(old(self).stream()),
    {
        let ghost v0 = self.lexer@;
        proof {
            lemma_rest_unfolds(v0.input, v0.pos);
        }
        let mut token = self.lexer.next_token().unwrap();
        core::mem::swap(&mut self.peek_token, &mut token);
        core::mem::swap(&mut self.cur_token, &mut token);
        proof {
            assert(self.stream() =~= tail(old(self).stream()));
        }
        token
    }

    /// The kind of the current token.
    fn current_kind(&self) -> (k: TokenKind)
        requires
            self.wf(),
        ensures
            k == head(self.stream()).kind,
            k == TokenKind::EndOfFile <==> self.stream().len() == 0,
    {
        proof {
            self.lemma_current();
        }
        self.cur_token.kind()
    }

    /// The diagnostic for the current token.
    fn unexpected(&self, expected: Expected) -> (d: Diagnostic)
        requires
            self.wf(),
        ensures
            d@ == unexpected(expected, self.stream()),
    {
        proof {
            self.lemma_current();
        }
        Diagnostic { expected, found: self.cur_token.clone() }
    }

    /// Takes the current token if it is of the given kind.
    fn expect(&mut self, kind: TokenKind) -> (r: Result<Token, Diagnostic>)
        requires
            old(self).wf(),
        ensures
            final(self).wf(),
            (token_result(r), final(self).stream()) == expect(old(self).stream(), kind),
            final(self).stream().len() <= old(self).stream().len(),
    {
        if self.current_kind() == kind {
            Ok(self.next_token())
        } else {
            Err(self.unexpected(Expected::Kind(kind)))
        }
    }

    /// Parses every statement up to the end of the input. A statement that
    /// cannot be parsed leaves a diagnostic, and parsing resumes behind
    /// the next semicolon or closing brace.
    pub fn parse_program(&mut self) -> (r: (Program, Vec<Diagnostic>))
        requires
            old(self).wf(),
        ensures
            final(self).wf(),
            final(self).stream().len() == 0,
            (r.0@, diag_views(r.1@)) == parse_program(old(self).stream()),
    {
        let mut statements: Vec<Statement> = Vec::new();
        let mut diagnostics: Vec<Diagnostic> = Vec::new();
        proof {
            assert(stmt_views(statements@) =~= Seq::empty());
            assert(diag_views(diagnostics@) =~= Seq::empty());
        }
        while self.current_kind() != TokenKind::EndOfFile
            invariant
                self.wf(),
                parse_statements(
                    self.stream(),
                    stmt_views(statements@),
                    diag_views(diagnostics@),
                ) == parse_program(old(self).stream()),
            decreases self.stream().len(),
        {
            let ghost done = statements@;
            let ghost errors = diagnostics@;
            match self.parse_statement() {
                Ok(statement) => {
                    statements.push(statement);
                    proof {
                        assert(stmt_views(statements@) =~= stmt_views(done).push(statement@));
                    }
                },
                Err(diagnostic) => {
                    diagnostics.push(diagnostic);
                    self.synchronize();
                    proof {
                        assert(diag_views(diagnostics@) =~= diag_views(errors).push(diagnostic@));
                    }
                },
            }
        }
        (Program { statements }, diagnostics)
    }

    /// Skips to behind the next semicolon or closing brace, or to the end.
    fn synchronize(&mut self)
        requires
            old(self).wf(),
        ensures
            final(self).wf(),
            final(self).stream() == synchronize(old(self).stream()),
            final(self).stream().len() <= old(self).stream().len(),
            old(self).stream().len() > 0 ==> final(self).stream().len() < old(self).stream().len(),
    {
        loop
            invariant_except_break
                synchronize(self.stream()) == synchronize(old(self).stream()),
            invariant
                self.wf(),
                self.stream().len() < old(self).stream().len() || self.stream() == old(
                    self,
                ).stream(),
            ensures
                self.wf(),
                self.stream() == synchronize(old(self).stream()),
                self.stream().len() <= old(self).stream().len(),
                old(self).stream().len() > 0 ==> self.stream().len() < old(self).stream().len(),
            decreases self.stream().len(),
        {
            let kind = self.current_kind();
            if kind == TokenKind::EndOfFile {
                break ;
            }
            self.next_token();
            if kind == TokenKind::SemiColon || kind == TokenKind::RightBrace {
                break ;
            }
        }
    }

    /// Parses one statement.
    fn parse_statement(&mut self) -> (r: Result<Statement, Diagnostic>)
        requires
            old(self).wf(),
        ensures
            final(self).wf(),
            (stmt_result(r), final(self).stream()) == parse_statement(old(self).stream()),
            final(self).stream().len() <= old(self).stream().len(),
            r is Ok ==> final(self).stream().len() < old(self).stream().len(),
        decreases old(self).stream().len(), 2int,
    {
        let kind = self.current_kind();
        match kind {
            TokenKind::Let => {
                let token = self.next_token();
                let name = match self.expect(TokenKind::Name) {
                    Ok(name) => name,
                    Err(d) => {
                        return Err(d);
                    },
                };
                match self.expect(TokenKind::Equal) {
                    Ok(_) => {},
                    Err(d) => {
                        return Err(d);
                    },
                }
                let value = match self.parse_expression(Precedence::Lowest) {
                    Ok(value) => value,
                    Err(d) => {
                        return Err(d);
                    },
                };
                match self.expect(TokenKind::SemiColon) {
                    Ok(_) => Ok(Statement::Let { token, name, value }),
                    Err(d) => Err(d),
                }
            },
            TokenKind::Return => {
                let token = self.next_token();
                if self.current_kind() == TokenKind::SemiColon {
                    self.next_token();
                    return Ok(Statement::Return { token, result: None });
                }
                let value = match self.parse_expression(Precedence::Lowest) {
                    Ok(value) => value,
                    Err(d) => {
                        return Err(d);
                    },
                };
                match self.expect(TokenKind::SemiColon) {
                    Ok(_) => Ok(Statement::Return { token, result: Some(value) }),
                    Err(d) => Err(d),
                }
            },
            _ => {
                let expression = match self.parse_expression(Precedence::Lowest) {
                    Ok(expression) => expression,
                    Err(d) => {
                        return Err(d);
                    },
                };
                if self.current_kind() == TokenKind::SemiColon {
                    self.next_token();
                }
                Ok(Statement::Expression { expression })
            },
        }
    }

    /// Parses an expression at a binding-power level.
    fn parse_expression(&mut self, level: Precedence) -> (r: Result<Expression, Diagnostic>)
        requires
            old(self).wf(),
        ensures
            final(self).wf(),
            (expr_result(r), final(self).stream()) == parse_expression(old(self).stream(), level),
            final(self).stream().len() <= old(self).stream().len(),
            r is Ok ==> final(self).stream().len() < old(self).stream().len(),
        decreases old(self).stream().len(), 1int,
    {
        let mut left = match self.parse_prefix() {
            Ok(left) => left,
            Err(d) => {
                return Err(d);
            },
        };
        loop
            invariant
                self.wf(),
                self.stream().len() < old(self).stream().len(),
                parse_infix(left@, self.stream(), level) == parse_expression(
                    old(self).stream(),
                    level,
                ),
            decreases self.stream().len(),
        {
            let kind = self.current_kind();
            let power = Precedence::of_kind(kind);
            if power.rank() <= level.rank() {
                return Ok(left);
            }
            let token = self.next_token();
            if kind == TokenKind::LeftParen {
                match self.parse_arguments() {
                    Ok(arguments) => {
                        left = Expression::call(token, left, arguments);
                    },
                    Err(d) => {
                        return Err(d);
                    },
                }
            } else {
                match self.parse_expression(power) {
                    Ok(right) => {
                        left =
                        Expression::Infix { token, left: Box::new(left), right: Box::new(right) };
                    },
                    Err(d) => {
                        return Err(d);
                    },
                }
            }
        }
    }

    /// Parses a prefix or primary term.
    fn parse_prefix(&mut self) -> (r: Result<Expression, Diagnostic>)
        requires
            old(self).wf(),
        ensures
            final(self).wf(),
            (expr_result(r), final(self).stream()) == parse_prefix(old(self).stream()),
            final(self).stream().len() <= old(self).stream().len(),
            r is Ok ==> final(self).stream().len() < old(self).stream().len(),
        decreases old(self).stream().len(), 0int,
    {
        let kind = self.current_kind();
        match kind {
            TokenKind::Name => Ok(Expression::Identifier { token: self.next_token() }),
            TokenKind::Int => Ok(Expression::IntegerLiteral { token: self.next_token() }),
            TokenKind::Float => Ok(Expression::FloatLiteral { token: self.next_token() }),
            TokenKind::String => Ok(Expression::StringLiteral { token: self.next_token() }),
            TokenKind::True | TokenKind::False => Ok(
                Expression::BooleanLiteral { token: self.next_token() },
            ),
            TokenKind::Bang | TokenKind::Minus => {
                let token = self.next_token();
                match self.parse_expression(Precedence::Prefix) {
                    Ok(operand) => Ok(Expression::Prefix { token, operand: Box::new(operand) }),
                    Err(d) => Err(d),
                }
            },
            TokenKind::LeftParen => {
                self.next_token();
                let inner = match self.parse_expression(Precedence::Lowest) {
                    Ok(inner) => inner,
                    Err(d) => {
                        return Err(d);
                    },
                };
                match self.expect(TokenKind::RightParen) {
                    Ok(_) => Ok(inner),
                    Err(d) => Err(d),
                }
            },
            TokenKind::If => {
                let token = self.next_token();
                match self.parse_expression(Precedence::Lowest) {
                    Ok(condition) => self.parse_branches(token, condition),
                    Err(d) => Err(d),
                }
            },
            TokenKind::Fun => {
                let token = self.next_token();
                match self.expect(TokenKind::LeftParen) {
                    Ok(_) => {},
                    Err(d) => {
                        return Err(d);
                    },
                }
                let parameters = match self.parse_parameters() {
                    Ok(parameters) => parameters,
                    Err(d) => {
                        return Err(d);
                    },
                };
                match self.parse_block() {
                    Ok(body) => Ok(Expression::function(token, parameters, body)),
                    Err(d) => Err(d),
                }
            },
            _ => Err(self.unexpected(Expected::Expression)),
        }
    }

    /// Parses the branches of an `if` whose condition has been parsed.
    fn parse_branches(&mut self, token: Token, condition: Expression) -> (r: Result<
        Expression,
        Diagnostic,
    >)
        requires
            old(self).wf(),
        ensures
            final(self).wf(),
            (expr_result(r), final(self).stream()) == parse_branches(
                token@,
                condition@,
                old(self).stream(),
            ),
            final(self).stream().len() <= old(self).stream().len(),
        decreases old(self).stream().len(), 5int,
    {
        let consequence = match self.parse_block() {
            Ok(block) => block,
            Err(d) => {
                return Err(d);
            },
        };
        if self.current_kind() == TokenKind::Else {
            self.next_token();
            match self.parse_block() {
                Ok(alternative) => Ok(
                    Expression::conditional(token, condition, consequence, Some(alternative)),
                ),
                Err(d) => Err(d),
            }
        } else {
            Ok(Expression::conditional(token, condition, consequence, None))
        }
    }

    /// Parses the arguments of a call, after its opening parenthesis.
    fn parse_arguments(&mut self) -> (r: Result<Vec<Expression>, Diagnostic>)
        requires
            old(self).wf(),
        ensures
            final(self).wf(),
            (exprs_result(r), final(self).stream()) == parse_arguments(old(self).stream()),
            final(self).stream().len() <= old(self).stream().len(),
            r is Ok ==> final(self).stream().len() < old(self).stream().len(),
        decreases old(self).stream().len(), 3int,
    {
        let mut arguments: Vec<Expression> = Vec::new();
        proof {
            assert(expr_views(arguments@) =~= Seq::empty());
        }
        if self.current_kind() == TokenKind::RightParen {
            self.next_token();
            return Ok(arguments);
        }
        loop
            invariant
                self.wf(),
                self.stream().len() <= old(self).stream().len(),
                parse_argument_list(self.stream(), expr_views(arguments@)) == parse_arguments(
                    old(self).stream(),
                ),
            decreases self.stream().len(),
        {
            let ghost done = arguments@;
            match self.parse_expression(Precedence::Lowest) {
                Ok(argument) => {
                    arguments.push(argument);
                    proof {
                        assert(expr_views(arguments@) =~= expr_views(done).push(argument@));
                    }
                },
                Err(d) => {
                    return Err(d);
                },
            }
            if self.current_kind() == TokenKind::Comma {
                self.next_token();
            } else {
                return match self.expect(TokenKind::RightParen) {
                    Ok(_) => Ok(arguments),
                    Err(d) => Err(d),
                };
            }
        }
    }

    /// Parses the parameter names of a function literal, after the
    /// opening parenthesis.
    fn parse_parameters(&mut self) -> (r: Result<Vec<Token>, Diagnostic>)
        requires
            old(self).wf(),
        ensures
            final(self).wf(),
            (tokens_result(r), final(self).stream()) == parse_parameters(old(self).stream()),
            final(self).stream().len() <= old(self).stream().len(),
    {
        let mut parameters: Vec<Token> = Vec::new();
        proof {
            assert(token_views(parameters@) =~= Seq::empty());
        }
        if self.current_kind() == TokenKind::RightParen {
            self.next_token();
            return Ok(parameters);
        }
        loop
            invariant
                self.wf(),
                self.stream().len() <= old(self).stream().len(),
                parse_parameter_list(self.stream(), token_views(parameters@)) == parse_parameters(
                    old(self).stream(),
                ),
            decreases self.stream().len(),
        {
            let ghost done = parameters@;
            match self.expect(TokenKind::Name) {
                Ok(name) => {
                    parameters.push(name);
                    proof {
                        assert(token_views(parameters@) =~= token_views(done).push(name@));
                    }
                },
                Err(d) => {
                    return Err(d);
                },
            }
            if self.current_kind() == TokenKind::Comma {
                self.next_token();
            } else {
                return match self.expect(TokenKind::RightParen) {
                    Ok(_) => Ok(parameters),
                    Err(d) => Err(d),
                };
            }
        }
    }

    /// Parses a block: statements between braces.
    fn parse_block(&mut self) -> (r: Result<Vec<Statement>, Diagnostic>)
        requires
            old(self).wf(),
        ensures
            final(self).wf(),
            (stmts_result(r), final(self).stream()) == parse_block(old(self).stream()),
            final(self).stream().len() <= old(self).stream().len(),
            r is Ok ==> final(self).stream().len() < old(self).stream().len(),
        decreases old(self).stream().len(), 4int,
    {
        match self.expect(TokenKind::LeftBrace) {
            Ok(_) => {},
            Err(d) => {
                return Err(d);
            },
        }
        let mut statements: Vec<Statement> = Vec::new();
        proof {
            assert(stmt_views(statements@) =~= Seq::empty());
        }
        loop
            invariant
                self.wf(),
                self.stream().len() < old(self).stream().len(),
                parse_block_statements(self.stream(), stmt_views(statements@)) == parse_block(
                    old(self).stream(),
                ),
            decreases self.stream().len(),
        {
            let kind = self.current_kind();
            if kind == TokenKind::RightBrace {
                self.next_token();
                return Ok(statements);
            }
            if kind == TokenKind::EndOfFile {
                return Err(self.unexpected(Expected::Kind(TokenKind::RightBrace)));
            }
            let ghost done = statements@;
            match self.parse_statement() {
                Ok(statement) => {
                    statements.push(statement);
                    proof {
                        assert(stmt_views(statements@) =~= stmt_views(done).push(statement@));
                    }
                },
                Err(d) => {
                    return Err(d);
                },
            }
        }
    }
}

} // verus!
