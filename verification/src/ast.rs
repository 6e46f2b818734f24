//! The syntax tree: one closed sum type for statements and one for
//! expressions. Every node owns its children and keeps the token that
//! introduced it.

use crate::token::{Token, TokenKind, TokenView};
use vstd::prelude::*;

verus! {

/// An expression. For a literal or an identifier the token is the node;
/// for an operator node it is the operator; for a call it is the opening
/// parenthesis; for `if` and `fun` it is the keyword.
#[derive(Debug, PartialEq)]
pub enum Expression {
    Identifier { token: Token },
    IntegerLiteral { token: Token },
    FloatLiteral { token: Token },
    StringLiteral { token: Token },
    BooleanLiteral { token: Token },
    Prefix { token: Token, operand: Box<Expression> },
    Infix { token: Token, left: Box<Expression>, right: Box<Expression> },
    Call { token: Token, callee: Box<Expression>, arguments: Vec<Expression> },
    FunctionLiteral { token: Token, parameters: Vec<Token>, body: Vec<Statement> },
    If {
        token: Token,
        condition: Box<Expression>,
        consequence: Vec<Statement>,
        alternative: Option<Vec<Statement>>,
    },
}

/// A statement. An expression statement is introduced by its expression
/// and keeps no token of its own.
#[derive(Debug, PartialEq)]
pub enum Statement {
    Let { token: Token, name: Token, value: Expression },
    Return { token: Token, result: Option<Expression> },
    Expression { expression: Expression },
}

/// The root of a syntax tree: the top-level statements in source order.
#[derive(Debug, PartialEq)]
pub struct Program {
    pub statements: Vec<Statement>,
}

/// The mathematical value of an expression.
pub enum ExprView {
    Identifier { token: TokenView },
    IntegerLiteral { token: TokenView },
    FloatLiteral { token: TokenView },
    StringLiteral { token: TokenView },
    BooleanLiteral { token: TokenView },
    Prefix { token: TokenView, operand: Box<ExprView> },
    Infix { token: TokenView, left: Box<ExprView>, right: Box<ExprView> },
    Call { token: TokenView, callee: Box<ExprView>, arguments: Seq<ExprView> },
    FunctionLiteral { token: TokenView, parameters: Seq<TokenView>, body: Seq<StmtView> },
    If {
        token: TokenView,
        condition: Box<ExprView>,
        consequence: Seq<StmtView>,
        alternative: Option<Seq<StmtView>>,
    },
}

/// The mathematical value of a statement.
pub enum StmtView {
    Let { token: TokenView, name: TokenView, value: ExprView },
    Return { token: TokenView, result: Option<ExprView> },
    Expression { expression: ExprView },
}

/// The mathematical value of an expression.
pub open spec fn expr_view(e: Expression) -> ExprView
    decreases e,
{
    match e {
        Expression::Identifier { token } => ExprView::Identifier { token: token@ },
        Expression::IntegerLiteral { token } => ExprView::IntegerLiteral { token: token@ },
        Expression::FloatLiteral { token } => ExprView::FloatLiteral { token: token@ },
        Expression::StringLiteral { token } => ExprView::StringLiteral { token: token@ },
        Expression::BooleanLiteral { token } => ExprView::BooleanLiteral { token: token@ },
        Expression::Prefix { token, operand } => ExprView::Prefix {
            token: token@,
            operand: Box::new(expr_view(*operand)),
        },
        Expression::Infix { token, left, right } => ExprView::Infix {
            token: token@,
            left: Box::new(expr_view(*left)),
            right: Box::new(expr_view(*right)),
        },
        Expression::Call { token, callee, arguments } => ExprView::Call {
            token: token@,
            callee: Box::new(expr_view(*callee)),
            arguments: Seq::new(
                arguments@.len(),
                |i: int|
                    if 0 <= i < arguments@.len() {
                        expr_view(arguments@[i])
                    } else {
                        arbitrary()
                    },
            ),
        },
        Expression::FunctionLiteral { token, parameters, body } => ExprView::FunctionLiteral {
            token: token@,
            parameters: crate::lexer::token_views(parameters@),
            body: Seq::new(
                body@.len(),
                |i: int|
                    if 0 <= i < body@.len() {
                        stmt_view(body@[i])
                    } else {
                        arbitrary()
                    },
            ),
        },
        Expression::If { token, condition, consequence, alternative } => ExprView::If {
            token: token@,
            condition: Box::new(expr_view(*condition)),
            consequence: Seq::new(
                consequence@.len(),
                |i: int|
                    if 0 <= i < consequence@.len() {
                        stmt_view(consequence@[i])
                    } else {
                        arbitrary()
                    },
            ),
            alternative: match alternative {
                Some(block) => Some(
                    Seq::new(
                        block@.len(),
                        |i: int|
                            if 0 <= i < block@.len() {
                                stmt_view(block@[i])
                            } else {
                                arbitrary()
                            },
                    ),
                ),
                None => None,
            },
        },
    }
}

/// The mathematical value of a statement.
pub open spec fn stmt_view(s: Statement) -> StmtView
    decreases s,
{
    match s {
        Statement::Let { token, name, value } => StmtView::Let {
            token: token@,
            name: name@,
            value: expr_view(value),
        },
        Statement::Return { token, result } => StmtView::Return {
            token: token@,
            result: match result {
                Some(e) => Some(expr_view(e)),
                None => None,
            },
        },
        Statement::Expression { expression } => StmtView::Expression {
            expression: expr_view(expression),
        },
    }
}

impl View for Expression {
    type V = ExprView;

    open spec fn view(&self) -> ExprView {
        expr_view(*self)
    }
}

impl View for Statement {
    type V = StmtView;

    open spec fn view(&self) -> StmtView {
        stmt_view(*self)
    }
}

/// The mathematical values of a sequence of statements.
pub open spec fn stmt_views(statements: Seq<Statement>) -> Seq<StmtView> {
    Seq::new(statements.len(), |i: int| statements[i]@)
}

/// The mathematical values of a sequence of expressions.
pub open spec fn expr_views(expressions: Seq<Expression>) -> Seq<ExprView> {
    Seq::new(expressions.len(), |i: int| expressions[i]@)
}

impl View for Program {
    type V = Seq<StmtView>;

    open spec fn view(&self) -> Seq<StmtView> {
        stmt_views(self.statements@)
    }
}

impl Expression {
    /// A call of `callee` with the given arguments.
    pub fn call(token: Token, callee: Expression, arguments: Vec<Expression>) -> (e: Expression)
        ensures
            e@ == (ExprView::Call {
                token: token@,
                callee: Box::new(callee@),
                arguments: expr_views(arguments@),
            }),
    {
        let e = Expression::Call { token, callee: Box::new(callee), arguments };
        proof {
            assert(e@->Call_arguments =~= expr_views(arguments@));
        }
        e
    }

    /// A function literal with the given parameter names and body.
    pub fn function(token: Token, parameters: Vec<Token>, body: Vec<Statement>) -> (e: Expression)
        ensures
            e@ == (ExprView::FunctionLiteral {
                token: token@,
                parameters: crate::lexer::token_views(parameters@),
                body: stmt_views(body@),
            }),
    {
        let e = Expression::FunctionLiteral { token, parameters, body };
        proof {
            assert(e@->FunctionLiteral_body =~= stmt_views(body@));
        }
        e
    }

    /// A conditional with one branch or two.
    pub fn conditional(
        token: Token,
        condition: Expression,
        consequence: Vec<Statement>,
        alternative: Option<Vec<Statement>>,
    ) -> (e: Expression)
        ensures
            e@ == (ExprView::If {
                token: token@,
                condition: Box::new(condition@),
                consequence: stmt_views(consequence@),
                alternative: match alternative {
                    Some(block) => Some(stmt_views(block@)),
                    None => None,
                },
            }),
    {
        let ghost branch = alternative;
        let e = Expression::If { token, condition: Box::new(condition), consequence, alternative };
        proof {
            assert(e@->If_consequence =~= stmt_views(consequence@));
            match branch {
                Some(block) => {
                    assert(e@->If_alternative.unwrap() =~= stmt_views(block@));
                },
                None => {},
            }
        }
        e
    }

    /// The token that introduced this expression.
    pub fn token(&self) -> (t: &Token)
        ensures
            t@ == self@.token(),
    {
        match self {
            Expression::Identifier { token }
            | Expression::IntegerLiteral { token }
            | Expression::FloatLiteral { token }
            | Expression::StringLiteral { token }
            | Expression::BooleanLiteral { token }
            | Expression::Prefix { token, .. }
            | Expression::Infix { token, .. }
            | Expression::Call { token, .. }
            | Expression::FunctionLiteral { token, .. }
            | Expression::If { token, .. } => token,
        }
    }
}

impl ExprView {
    /// The token that introduced this expression.
    pub open spec fn token(self) -> TokenView {
        match self {
            ExprView::Identifier { token }
            | ExprView::IntegerLiteral { token }
            | ExprView::FloatLiteral { token }
            | ExprView::StringLiteral { token }
            | ExprView::BooleanLiteral { token }
            | ExprView::Prefix { token, .. }
            | ExprView::Infix { token, .. }
            | ExprView::Call { token, .. }
            | ExprView::FunctionLiteral { token, .. }
            | ExprView::If { token, .. } => token,
        }
    }
}

impl StmtView {
    /// The token that introduced this statement: the keyword, or the
    /// token of the expression that makes the statement.
    pub open spec fn token(self) -> TokenView {
        match self {
            StmtView::Let { token, .. } | StmtView::Return { token, .. } => token,
            StmtView::Expression { expression } => expression.token(),
        }
    }
}

impl Statement {
    /// The token that introduced this statement.
    pub fn token(&self) -> (t: &Token)
        ensures
            t@ == self@.token(),
    {
        match self {
            Statement::Let { token, .. } | Statement::Return { token, .. } => token,
            Statement::Expression { expression } => expression.token(),
        }
    }
}

impl Program {
    /// The token that introduced the program: that of its first
    /// statement, or `EndOfFile` for a program without statements.
    pub fn token_literal(&self) -> (t: Token)
        ensures
            t@ == if self@.len() > 0 {
                self@[0].token()
            } else {
                TokenView::plain(TokenKind::EndOfFile)
            },
    {
        if self.statements.len() > 0 {
            self.statements[0].token().clone()
        } else {
            Token::EndOfFile
        }
    }
}

} // verus!
