//! The bytecode emitter: one post-order walk of the syntax tree that
//! leaves a linear instruction sequence and a data region.
//!
//! Register zero carries results: every expression statement leaves its
//! value there, and so does every return. The registers after it carry
//! the arguments of a call. Every name and every intermediate value gets a
//! register of its own behind those, and none is used twice.

use crate::ast::{expr_views, stmt_views, ExprView, Expression, Program, Statement, StmtView};
use crate::lexer::token_views;
use crate::op::{Bytecode, Instruction, Opcode};
use crate::text::str_eq;
use crate::token::{Token, TokenKind, TokenView};
use crate::vm::flag;
use vstd::prelude::*;
use vstd::std_specs::iter::IteratorSpec;
use vstd::utf8::encode_utf8;

verus! {

broadcast use vstd::string::axiom_spec_iter, vstd::string::next_postcondition;

/// The register in which statements and returns leave their value.
pub const RESULT_REGISTER: u16 = 0;

/// How many arguments a call can pass: the registers after the result
/// register carry them.
pub const ARGUMENT_REGISTERS: u16 = 8;

/// The first register that is free for names and intermediate values.
pub const FIRST_FREE_REGISTER: u16 = 9;

/// The largest index of an instruction that a jump can name, and the
/// largest offset into the data region that a register can hold.
pub const MAX_ADDRESS: usize = 0xFFFF;

/// Why a program cannot be compiled.
#[derive(Clone, Copy, Debug, PartialEq, Eq, Structural)]
pub enum CompileErrorKind {
    /// A name is used that no `let` or parameter has declared.
    UndeclaredName,
    /// The text of an integer literal is empty or holds a character that
    /// is no decimal digit.
    InvalidInteger,
    /// An integer literal does not fit into a register.
    IntegerOutOfRange,
    /// A floating-point literal: the machine has no such values.
    UnsupportedLiteral,
    /// The token of an operator node is no operator of its arity.
    UnknownOperator,
    /// The machine has too few registers for the program.
    OutOfRegisters,
    /// A function takes, or a call passes, more arguments than there are
    /// argument registers.
    TooManyArguments,
    /// The data region has grown beyond what a register can address.
    DataTooLarge,
    /// The program has grown beyond what a jump can address.
    ProgramTooLong,
}

/// A compile-time error: what is wrong, and the token of the node at
/// which it was found.
#[derive(Debug, PartialEq)]
pub struct CompileError {
    pub kind: CompileErrorKind,
    pub token: Token,
}

/// The mathematical value of a compile-time error.
pub struct CompileErrorView {
    pub kind: CompileErrorKind,
    pub token: TokenView,
}

impl View for CompileError {
    type V = CompileErrorView;

    open spec fn view(&self) -> CompileErrorView {
        CompileErrorView { kind: self.kind, token: self.token@ }
    }
}

/// The value of a text of decimal digits, read as a number. The empty
/// text has the value zero.
pub open spec fn decimal_value(text: Seq<char>) -> int
    decreases text.len(),
{
    if text.len() == 0 {
        0
    } else {
        decimal_value(text.drop_last()) * 10 + (text.last() as int - '0' as int)
    }
}

/// Whether every character of a text is a decimal digit.
pub open spec fn all_decimal(text: Seq<char>) -> bool {
    forall|i: int| 0 <= i < text.len() ==> crate::lexer::decimal(#[trigger] text[i])
}

/// The value of an integer literal in a register, or why it has none.
pub open spec fn integer_value(text: Seq<char>) -> Result<u16, CompileErrorKind> {
    if text.len() == 0 || !all_decimal(text) {
        Err(CompileErrorKind::InvalidInteger)
    } else if decimal_value(text) > u16::MAX {
        Err(CompileErrorKind::IntegerOutOfRange)
    } else {
        Ok(decimal_value(text) as u16)
    }
}

/// The operation of a prefix operator.
pub open spec fn prefix_operation(kind: TokenKind) -> Option<Opcode> {
    match kind {
        TokenKind::Bang => Some(Opcode::Not),
        TokenKind::Minus => Some(Opcode::Neg),
        _ => None,
    }
}

/// The operation of an infix operator.
pub open spec fn infix_operation(kind: TokenKind) -> Option<Opcode> {
    match kind {
        TokenKind::Plus => Some(Opcode::Add),
        TokenKind::Minus => Some(Opcode::Sub),
        TokenKind::Star => Some(Opcode::Mul),
        TokenKind::Slash => Some(Opcode::Div),
        TokenKind::Percent => Some(Opcode::Rem),
        TokenKind::EqualEqual => Some(Opcode::Equal),
        TokenKind::NotEqual => Some(Opcode::NotEqual),
        TokenKind::Less => Some(Opcode::Less),
        TokenKind::Greater => Some(Opcode::Greater),
        TokenKind::LessEqual => Some(Opcode::LessEqual),
        TokenKind::GreaterEqual => Some(Opcode::GreaterEqual),
        _ => None,
    }
}

/// An instruction, written by operation.
pub open spec fn instruction(op: Opcode, a: u16, b: u16, c: u16) -> Instruction {
    Instruction { opcode: op.code(), a, b, c }
}

/// The mathematical value of a symbol-table entry.
pub struct SymbolView {
    pub name: Seq<char>,
    pub slot: u16,
}

/// The register of a name: that of the latest entry for it, if any.
pub open spec fn lookup(symbols: Seq<SymbolView>, name: Seq<char>) -> Option<u16>
    decreases symbols.len(),
{
    if symbols.len() == 0 {
        None
    } else if symbols.last().name == name {
        Some(symbols.last().slot)
    } else {
        lookup(symbols.drop_last(), name)
    }
}

/// The mathematical value of an emitter: what it has emitted so far, the
/// names in scope, the next free register and the number of registers of
/// the machine that it emits for.
pub struct EmitterView {
    pub code: Seq<Instruction>,
    pub data: Seq<u8>,
    pub symbols: Seq<SymbolView>,
    pub next: int,
    pub limit: int,
}

/// An emitter state with a register, or an error.
pub type Emitted = Result<(EmitterView, u16), CompileErrorView>;

impl EmitterView {
    /// The emitter before anything is emitted.
    pub open spec fn fresh(limit: int) -> EmitterView {
        EmitterView {
            code: Seq::empty(),
            data: Seq::empty(),
            symbols: Seq::empty(),
            next: FIRST_FREE_REGISTER as int,
            limit,
        }
    }

    /// With one more instruction at the end.
    pub open spec fn emit(self, ins: Instruction) -> EmitterView {
        EmitterView { code: self.code.push(ins), ..self }
    }

    /// With the instruction at an index replaced.
    pub open spec fn patch(self, at: int, ins: Instruction) -> EmitterView {
        EmitterView { code: self.code.update(at, ins), ..self }
    }

    /// With one more name in scope.
    pub open spec fn bind(self, name: Seq<char>, slot: u16) -> EmitterView {
        EmitterView { symbols: self.symbols.push(SymbolView { name, slot }), ..self }
    }

    /// With the names in scope replaced.
    pub open spec fn scoped(self, symbols: Seq<SymbolView>) -> EmitterView {
        EmitterView { symbols, ..self }
    }

    /// Takes the next free register, if the machine has one left.
    pub open spec fn take_register(self, token: TokenView) -> Emitted {
        if self.next < self.limit {
            Ok((EmitterView { next: self.next + 1, ..self }, self.next as u16))
        } else {
            Err(CompileErrorView { kind: CompileErrorKind::OutOfRegisters, token })
        }
    }

    /// Emits an operation that writes a fresh register.
    pub open spec fn emit_fresh(self, op: Opcode, b: u16, c: u16, token: TokenView) -> Emitted {
        match self.take_register(token) {
            Ok((st, t)) => Ok((st.emit(instruction(op, t, b, c)), t)),
            Err(e) => Err(e),
        }
    }

    /// Appends the bytes of a text to the data region, closed by a zero
    /// byte, and emits the load of their offset into a fresh register.
    pub open spec fn emit_text(self, text: Seq<char>, token: TokenView) -> Emitted {
        if self.data.len() > MAX_ADDRESS {
            Err(CompileErrorView { kind: CompileErrorKind::DataTooLarge, token })
        } else {
            EmitterView { data: self.data + encode_utf8(text) + seq![0u8], ..self }.emit_fresh(
                Opcode::LoadImm,
                self.data.len() as u16,
                0,
                token,
            )
        }
    }
}

/// The emission of an expression: the emitter after it and the register
/// that holds the value, or the first error. Operands are emitted before
/// their operator.
pub open spec fn emit_expression(st: EmitterView, e: ExprView) -> Emitted
    decreases e, 1int,
{
    match e {
        ExprView::Identifier { token } => match lookup(st.symbols, token.text) {
            Some(slot) => Ok((st, slot)),
            None => Err(CompileErrorView { kind: CompileErrorKind::UndeclaredName, token }),
        },
        ExprView::IntegerLiteral { token } => match integer_value(token.text) {
            Ok(value) => st.emit_fresh(Opcode::LoadImm, value, 0, token),
            Err(kind) => Err(CompileErrorView { kind, token }),
        },
        ExprView::FloatLiteral { token } => Err(
            CompileErrorView { kind: CompileErrorKind::UnsupportedLiteral, token },
        ),
        ExprView::StringLiteral { token } => st.emit_text(token.text, token),
        ExprView::BooleanLiteral { token } => st.emit_fresh(
            Opcode::LoadImm,
            flag(token.kind == TokenKind::True),
            0,
            token,
        ),
        ExprView::Prefix { token, operand } => match prefix_operation(token.kind) {
            None => Err(CompileErrorView { kind: CompileErrorKind::UnknownOperator, token }),
            Some(op) => match emit_expression(st, *operand) {
                Ok((st1, r)) => st1.emit_fresh(op, r, 0, token),
                Err(e) => Err(e),
            },
        },
        ExprView::Infix { token, left, right } => match infix_operation(token.kind) {
            None => Err(CompileErrorView { kind: CompileErrorKind::UnknownOperator, token }),
            Some(op) => match emit_expression(st, *left) {
                Ok((st1, l)) => match emit_expression(st1, *right) {
                    Ok((st2, r)) => st2.emit_fresh(op, l, r, token),
                    Err(e) => Err(e),
                },
                Err(e) => Err(e),
            },
        },
        ExprView::If { .. } => emit_conditional(st, e),
        ExprView::FunctionLiteral { .. } => emit_function(st, e),
        ExprView::Call { .. } => emit_call(st, e),
    }
}

/// The emission of an `if`: the condition, a jump over the first block
/// if it is zero, the first block, a jump over the second, and the
/// second. The value is what the block taken left in the result register,
/// or zero where the condition fails and there is no second block. An
/// expression of another form, which `emit_expression` never hands over,
/// is an error.
pub open spec fn emit_conditional(st: EmitterView, e: ExprView) -> Emitted
    decreases e, 0int,
{
    match e {
        ExprView::If { token, condition, consequence, alternative } => match emit_expression(
            st,
            *condition,
        ) {
            Ok((st1, test)) => match st1.take_register(token) {
                Ok((st2, value)) => {
                    let branch_at = st2.code.len() as int;
                    let st3 = st2.emit(instruction(Opcode::JumpIfZero, test, 0, 0));
                    match emit_statements(st3, consequence, 0) {
                        Ok(st4) => {
                            let st5 = st4.emit(
                                instruction(Opcode::Move, value, RESULT_REGISTER, 0),
                            );
                            let skip_at = st5.code.len() as int;
                            let st6 = st5.emit(instruction(Opcode::Jump, 0, 0, 0));
                            let otherwise = st6.code.len() as int;
                            let emitted = match alternative {
                                Some(block) => match emit_statements(st6, block, 0) {
                                    Ok(st7) => Ok(
                                        st7.emit(
                                            instruction(Opcode::Move, value, RESULT_REGISTER, 0),
                                        ),
                                    ),
                                    Err(e) => Err(e),
                                },
                                None => Ok(st6.emit(instruction(Opcode::LoadImm, value, 0, 0))),
                            };
                            match emitted {
                                Ok(st8) => if st8.code.len() > MAX_ADDRESS {
                                    Err(
                                        CompileErrorView {
                                            kind: CompileErrorKind::ProgramTooLong,
                                            token,
                                        },
                                    )
                                } else {
                                    Ok(
                                        (
                                            st8.patch(
                                                branch_at,
                                                instruction(
                                                    Opcode::JumpIfZero,
                                                    test,
                                                    otherwise as u16,
                                                    0,
                                                ),
                                            ).patch(
                                                skip_at,
                                                instruction(
                                                    Opcode::Jump,
                                                    st8.code.len() as u16,
                                                    0,
                                                    0,
                                                ),
                                            ),
                                            value,
                                        ),
                                    )
                                },
                                Err(e) => Err(e),
                            }
                        },
                        Err(e) => Err(e),
                    }
                },
                Err(e) => Err(e),
            },
            Err(e) => Err(e),
        },
        _ => Err(CompileErrorView { kind: CompileErrorKind::UnknownOperator, token: e.token() }),
    }
}

/// The emission of a function literal: a jump over the body, the body
/// with its parameters as the only names in scope, a closing return, and
/// the load of the body's first instruction as the value. An expression
/// of another form, which `emit_expression` never hands over, is an
/// error.
pub open spec fn emit_function(st: EmitterView, e: ExprView) -> Emitted
    decreases e, 0int,
{
    match e {
        ExprView::FunctionLiteral { token, parameters, body } => if parameters.len()
            > ARGUMENT_REGISTERS {
            Err(CompileErrorView { kind: CompileErrorKind::TooManyArguments, token })
        } else {
            match st.take_register(token) {
                Ok((st1, value)) => {
                    let skip_at = st1.code.len() as int;
                    let st2 = st1.emit(instruction(Opcode::Jump, 0, 0, 0));
                    let entry = st2.code.len() as int;
                    match bind_parameters(st2.scoped(Seq::empty()), parameters, 0) {
                        Ok(st3) => match emit_statements(st3, body, 0) {
                            Ok(st4) => {
                                let st5 = st4.emit(
                                    instruction(Opcode::Return, RESULT_REGISTER, 0, 0),
                                );
                                if st5.code.len() > MAX_ADDRESS {
                                    Err(
                                        CompileErrorView {
                                            kind: CompileErrorKind::ProgramTooLong,
                                            token,
                                        },
                                    )
                                } else {
                                    Ok(
                                        (
                                            st5.scoped(st.symbols).patch(
                                                skip_at,
                                                instruction(
                                                    Opcode::Jump,
                                                    st5.code.len() as u16,
                                                    0,
                                                    0,
                                                ),
                                            ).emit(
                                                instruction(
                                                    Opcode::LoadImm,
                                                    value,
                                                    entry as u16,
                                                    0,
                                                ),
                                            ),
                                            value,
                                        ),
                                    )
                                }
                            },
                            Err(e) => Err(e),
                        },
                        Err(e) => Err(e),
                    }
                },
                Err(e) => Err(e),
            }
        },
        _ => Err(CompileErrorView { kind: CompileErrorKind::UnknownOperator, token: e.token() }),
    }
}

/// The emission of a call: the callee, the arguments in order, their
/// moves into the argument registers, the call, and the move of the
/// result into a fresh register. An expression of another form, which
/// `emit_expression` never hands over, is an error.
pub open spec fn emit_call(st: EmitterView, e: ExprView) -> Emitted
    decreases e, 0int,
{
    match e {
        ExprView::Call { token, callee, arguments } => if arguments.len() > ARGUMENT_REGISTERS {
            Err(CompileErrorView { kind: CompileErrorKind::TooManyArguments, token })
        } else {
            match emit_expression(st, *callee) {
                Ok((st1, target)) => match emit_arguments(st1, arguments, 0, Seq::empty()) {
                    Ok((st2, values)) => pass_arguments(st2, values, 0).emit(
                        instruction(Opcode::Call, target, 0, 0),
                    ).emit_fresh(Opcode::Move, RESULT_REGISTER, 0, token),
                    Err(e) => Err(e),
                },
                Err(e) => Err(e),
            }
        },
        _ => Err(CompileErrorView { kind: CompileErrorKind::UnknownOperator, token: e.token() }),
    }
}

/// The emission of the arguments of a call from index `from` on, in
/// order; `done` holds the registers of the arguments before.
pub open spec fn emit_arguments(
    st: EmitterView,
    arguments: Seq<ExprView>,
    from: int,
    done: Seq<u16>,
) -> Result<(EmitterView, Seq<u16>), CompileErrorView>
    decreases arguments, arguments.len() - from,
{
    if 0 <= from < arguments.len() {
        match emit_expression(st, arguments[from]) {
            Ok((st1, r)) => emit_arguments(st1, arguments, from + 1, done.push(r)),
            Err(e) => Err(e),
        }
    } else {
        Ok((st, done))
    }
}

/// The moves that put the values of the arguments from index `from` on
/// into the argument registers.
pub open spec fn pass_arguments(st: EmitterView, values: Seq<u16>, from: int) -> EmitterView
    decreases values.len() - from,
{
    if 0 <= from < values.len() {
        pass_arguments(
            st.emit(instruction(Opcode::Move, (1 + from) as u16, values[from], 0)),
            values,
            from + 1,
        )
    } else {
        st
    }
}

/// The prologue of a function for its parameters from index `from` on:
/// each gets a register of its own, filled from its argument register.
pub open spec fn bind_parameters(st: EmitterView, parameters: Seq<TokenView>, from: int) -> Result<
    EmitterView,
    CompileErrorView,
>
    decreases parameters.len() - from,
{
    if 0 <= from < parameters.len() {
        match st.take_register(parameters[from]) {
            Ok((st1, slot)) => bind_parameters(
                st1.emit(instruction(Opcode::Move, slot, (1 + from) as u16, 0)).bind(
                    parameters[from].text,
                    slot,
                ),
                parameters,
                from + 1,
            ),
            Err(e) => Err(e),
        }
    } else {
        Ok(st)
    }
}

/// The emission of the statements from index `from` on, in order.
pub open spec fn emit_statements(st: EmitterView, statements: Seq<StmtView>, from: int) -> Result<
    EmitterView,
    CompileErrorView,
>
    decreases statements, statements.len() - from,
{
    if 0 <= from < statements.len() {
        match emit_statement(st, statements[from]) {
            Ok(st1) => emit_statements(st1, statements, from + 1),
            Err(e) => Err(e),
        }
    } else {
        Ok(st)
    }
}

/// The emission of a statement. A `let` moves the value into the register
/// of its name, which is a new one unless the name is in scope already;
/// a `return` hands the value back, zero if there is none; an expression
/// statement leaves its value in the result register.
pub open spec fn emit_statement(st: EmitterView, s: StmtView) -> Result<
    EmitterView,
    CompileErrorView,
>
    decreases s, 0int,
{
    match s {
        StmtView::Let { token, name, value } => match emit_expression(st, value) {
            Ok((st1, r)) => match lookup(st1.symbols, name.text) {
                Some(slot) => Ok(st1.emit(instruction(Opcode::Move, slot, r, 0))),
                None => match st1.take_register(name) {
                    Ok((st2, slot)) => Ok(
                        st2.emit(instruction(Opcode::Move, slot, r, 0)).bind(name.text, slot),
                    ),
                    Err(e) => Err(e),
                },
            },
            Err(e) => Err(e),
        },
        StmtView::Return { token, result } => match result {
            Some(value) => match emit_expression(st, value) {
                Ok((st1, r)) => Ok(st1.emit(instruction(Opcode::Return, r, 0, 0))),
                Err(e) => Err(e),
            },
            None => Ok(
                st.emit(instruction(Opcode::LoadImm, RESULT_REGISTER, 0, 0)).emit(
                    instruction(Opcode::Return, RESULT_REGISTER, 0, 0),
                ),
            ),
        },
        StmtView::Expression { expression } => match emit_expression(st, expression) {
            Ok((st1, r)) => Ok(st1.emit(instruction(Opcode::Move, RESULT_REGISTER, r, 0))),
            Err(e) => Err(e),
        },
    }
}

/// The program that a syntax tree compiles to for a machine with `limit`
/// registers: its instructions and its data region, or the first error.
pub open spec fn compile_program(statements: Seq<StmtView>, limit: int) -> Result<
    (Seq<Instruction>, Seq<u8>),
    CompileErrorView,
> {
    if limit < FIRST_FREE_REGISTER {
        Err(
            CompileErrorView {
                kind: CompileErrorKind::OutOfRegisters,
                token: if statements.len() > 0 {
                    statements[0].token()
                } else {
                    TokenView::plain(TokenKind::EndOfFile)
                },
            },
        )
    } else {
        match emit_statements(EmitterView::fresh(limit), statements, 0) {
            Ok(st) => Ok((st.code, st.data)),
            Err(e) => Err(e),
        }
    }
}

impl EmitterView {
    /// What holds of an emitter at every point of a compilation: the
    /// registers set aside exist, every instruction emitted fits the
    /// machine, and every name in scope has a register already taken.
    pub open spec fn sound(self) -> bool {
        &&& FIRST_FREE_REGISTER <= self.next <= self.limit <= 0x1_0000
        &&& forall|i: int| 0 <= i < self.code.len() ==> (#[trigger] self.code[i]).fits(self.limit)
        &&& forall|i: int|
            0 <= i < self.symbols.len() ==> (#[trigger] self.symbols[i]).slot < self.next
    }

    /// Whether this emitter is a later state of the given one: for the
    /// same machine, with no register given back and no instruction
    /// removed.
    pub open spec fn continues(self, earlier: EmitterView) -> bool {
        &&& self.limit == earlier.limit
        &&& self.next >= earlier.next
        &&& self.code.len() >= earlier.code.len()
    }

    /// Appending an instruction that fits keeps an emitter sound.
    pub proof fn lemma_emit_sound(self, ins: Instruction)
        requires
            self.sound(),
            ins.fits(self.limit),
        ensures
            self.emit(ins).sound(),
            self.emit(ins).continues(self),
    {
    }

    /// Replacing an instruction by one that fits keeps an emitter sound.
    pub proof fn lemma_patch_sound(self, at: int, ins: Instruction)
        requires
            self.sound(),
            ins.fits(self.limit),
            0 <= at < self.code.len(),
        ensures
            self.patch(at, ins).sound(),
            self.patch(at, ins).continues(self),
    {
    }

    /// An operation emitted into a fresh register keeps an emitter sound
    /// if its other operands fit, and the fresh register is one taken.
    pub proof fn lemma_emit_fresh_sound(self, op: Opcode, b: u16, c: u16, token: TokenView)
        requires
            self.sound(),
            self.next < self.limit ==> instruction(op, self.next as u16, b, c).fits(self.limit),
        ensures
            self.emit_fresh(op, b, c, token) matches Ok(after) ==> after.0.sound()
                && after.0.continues(self) && after.1 < after.0.next && after.0.symbols
                == self.symbols,
    {
    }
}

/// The register of a name in scope is one of those that its table holds.
pub proof fn lemma_lookup_is_bound(symbols: Seq<SymbolView>, name: Seq<char>, next: int)
    requires
        forall|i: int| 0 <= i < symbols.len() ==> (#[trigger] symbols[i]).slot < next,
    ensures
        lookup(symbols, name) matches Some(slot) ==> slot < next,
    decreases symbols.len(),
{
    if symbols.len() > 0 && symbols.last().name != name {
        lemma_lookup_is_bound(symbols.drop_last(), name, next);
    }
}

/// Emitting an expression keeps an emitter sound, and the register of the
/// value is one taken.
pub proof fn lemma_expression_sound(st: EmitterView, e: ExprView)
    requires
        st.sound(),
    ensures
        emit_expression(st, e) matches Ok(after) ==> after.0.sound() && after.0.continues(st)
            && after.1 < after.0.next,
    decreases e, 1int,
{
    match e {
        ExprView::Identifier { token } => {
            lemma_lookup_is_bound(st.symbols, token.text, st.next);
        },
        ExprView::IntegerLiteral { token } => {
            if let Ok(value) = integer_value(token.text) {
                st.lemma_emit_fresh_sound(Opcode::LoadImm, value, 0, token);
            }
        },
        ExprView::FloatLiteral { .. } => {},
        ExprView::StringLiteral { token } => {
            if st.data.len() <= MAX_ADDRESS {
                EmitterView {
                    data: st.data + encode_utf8(token.text) + seq![0u8],
                    ..st
                }.lemma_emit_fresh_sound(Opcode::LoadImm, st.data.len() as u16, 0, token);
            }
        },
        ExprView::BooleanLiteral { token } => {
            st.lemma_emit_fresh_sound(
                Opcode::LoadImm,
                flag(token.kind == TokenKind::True),
                0,
                token,
            );
        },
        ExprView::Prefix { token, operand } => {
            if let Some(op) = prefix_operation(token.kind) {
                lemma_expression_sound(st, *operand);
                if let Ok((st1, r)) = emit_expression(st, *operand) {
                    st1.lemma_emit_fresh_sound(op, r, 0, token);
                }
            }
        },
        ExprView::Infix { token, left, right } => {
            if let Some(op) = infix_operation(token.kind) {
                lemma_expression_sound(st, *left);
                if let Ok((st1, l)) = emit_expression(st, *left) {
                    lemma_expression_sound(st1, *right);
                    if let Ok((st2, r)) = emit_expression(st1, *right) {
                        st2.lemma_emit_fresh_sound(op, l, r, token);
                    }
                }
            }
        },
        ExprView::If { .. } => {
            lemma_conditional_sound(st, e);
        },
        ExprView::FunctionLiteral { .. } => {
            lemma_function_sound(st, e);
        },
        ExprView::Call { .. } => {
            lemma_call_sound(st, e);
        },
    }
}

/// Emitting an `if` keeps an emitter sound.
pub proof fn lemma_conditional_sound(st: EmitterView, e: ExprView)
    requires
        st.sound(),
    ensures
        emit_conditional(st, e) matches Ok(after) ==> after.0.sound() && after.0.continues(st)
            && after.1 < after.0.next,
    decreases e, 0int,
{
    if let ExprView::If { token, condition, consequence, alternative } = e {
        lemma_expression_sound(st, *condition);
        if let Ok((st1, test)) = emit_expression(st, *condition) {
            if let Ok((st2, value)) = st1.take_register(token) {
                let branch_at = st2.code.len() as int;
                let st3 = st2.emit(instruction(Opcode::JumpIfZero, test, 0, 0));
                st2.lemma_emit_sound(instruction(Opcode::JumpIfZero, test, 0, 0));
                lemma_statements_sound(st3, consequence, 0);
                if let Ok(st4) = emit_statements(st3, consequence, 0) {
                    let st5 = st4.emit(instruction(Opcode::Move, value, RESULT_REGISTER, 0));
                    st4.lemma_emit_sound(instruction(Opcode::Move, value, RESULT_REGISTER, 0));
                    let skip_at = st5.code.len() as int;
                    let st6 = st5.emit(instruction(Opcode::Jump, 0, 0, 0));
                    st5.lemma_emit_sound(instruction(Opcode::Jump, 0, 0, 0));
                    let otherwise = st6.code.len() as int;
                    let emitted = match alternative {
                        Some(block) => match emit_statements(st6, block, 0) {
                            Ok(st7) => Ok(
                                st7.emit(instruction(Opcode::Move, value, RESULT_REGISTER, 0)),
                            ),
                            Err(e) => Err(e),
                        },
                        None => Ok(st6.emit(instruction(Opcode::LoadImm, value, 0, 0))),
                    };
                    match alternative {
                        Some(block) => {
                            lemma_statements_sound(st6, block, 0);
                            if let Ok(st7) = emit_statements(st6, block, 0) {
                                st7.lemma_emit_sound(
                                    instruction(Opcode::Move, value, RESULT_REGISTER, 0),
                                );
                            }
                        },
                        None => {
                            st6.lemma_emit_sound(instruction(Opcode::LoadImm, value, 0, 0));
                        },
                    }
                    if let Ok(st8) = emitted {
                        if st8.code.len() <= MAX_ADDRESS {
                            let first = instruction(Opcode::JumpIfZero, test, otherwise as u16, 0);
                            let second = instruction(Opcode::Jump, st8.code.len() as u16, 0, 0);
                            st8.lemma_patch_sound(branch_at, first);
                            st8.patch(branch_at, first).lemma_patch_sound(skip_at, second);
                        }
                    }
                }
            }
        }
    }
}

/// Emitting a function literal keeps an emitter sound.
pub proof fn lemma_function_sound(st: EmitterView, e: ExprView)
    requires
        st.sound(),
    ensures
        emit_function(st, e) matches Ok(after) ==> after.0.sound() && after.0.continues(st)
            && after.1 < after.0.next,
    decreases e, 0int,
{
    if let ExprView::FunctionLiteral { token, parameters, body } = e {
        if parameters.len() <= ARGUMENT_REGISTERS {
            if let Ok((st1, value)) = st.take_register(token) {
                let skip_at = st1.code.len() as int;
                let st2 = st1.emit(instruction(Opcode::Jump, 0, 0, 0));
                st1.lemma_emit_sound(instruction(Opcode::Jump, 0, 0, 0));
                let entry = st2.code.len() as int;
                lemma_parameters_sound(st2.scoped(Seq::empty()), parameters, 0);
                if let Ok(st3) = bind_parameters(st2.scoped(Seq::empty()), parameters, 0) {
                    lemma_statements_sound(st3, body, 0);
                    if let Ok(st4) = emit_statements(st3, body, 0) {
                        let st5 = st4.emit(instruction(Opcode::Return, RESULT_REGISTER, 0, 0));
                        st4.lemma_emit_sound(instruction(Opcode::Return, RESULT_REGISTER, 0, 0));
                        if st5.code.len() <= MAX_ADDRESS {
                            let outer = st5.scoped(st.symbols);
                            assert(outer.sound());
                            let jump = instruction(Opcode::Jump, st5.code.len() as u16, 0, 0);
                            outer.lemma_patch_sound(skip_at, jump);
                            outer.patch(skip_at, jump).lemma_emit_sound(
                                instruction(Opcode::LoadImm, value, entry as u16, 0),
                            );
                        }
                    }
                }
            }
        }
    }
}

/// Emitting a call keeps an emitter sound.
pub proof fn lemma_call_sound(st: EmitterView, e: ExprView)
    requires
        st.sound(),
    ensures
        emit_call(st, e) matches Ok(after) ==> after.0.sound() && after.0.continues(st)
            && after.1 < after.0.next,
    decreases e, 0int,
{
    if let ExprView::Call { token, callee, arguments } = e {
        if arguments.len() <= ARGUMENT_REGISTERS {
            lemma_expression_sound(st, *callee);
            if let Ok((st1, target)) = emit_expression(st, *callee) {
                lemma_arguments_sound(st1, arguments, 0, Seq::empty());
                if let Ok((st2, values)) = emit_arguments(st1, arguments, 0, Seq::empty()) {
                    lemma_pass_arguments_sound(st2, values, 0);
                    let st3 = pass_arguments(st2, values, 0);
                    st3.lemma_emit_sound(instruction(Opcode::Call, target, 0, 0));
                    st3.emit(instruction(Opcode::Call, target, 0, 0)).lemma_emit_fresh_sound(
                        Opcode::Move,
                        RESULT_REGISTER,
                        0,
                        token,
                    );
                }
            }
        }
    }
}

/// Emitting the arguments of a call keeps an emitter sound, gives one
/// register for each argument, and every one of them is taken.
pub proof fn lemma_arguments_sound(
    st: EmitterView,
    arguments: Seq<ExprView>,
    from: int,
    done: Seq<u16>,
)
    requires
        st.sound(),
        0 <= from <= arguments.len(),
        done.len() == from,
        forall|i: int| 0 <= i < done.len() ==> done[i] < st.next,
    ensures
        emit_arguments(st, arguments, from, done) matches Ok(after) ==> after.0.sound()
            && after.0.continues(st) && after.1.len() == arguments.len() && forall|i: int|
            0 <= i < after.1.len() ==> after.1[i] < after.0.next,
    decreases arguments, arguments.len() - from,
{
    if from < arguments.len() {
        lemma_expression_sound(st, arguments[from]);
        if let Ok((st1, r)) = emit_expression(st, arguments[from]) {
            lemma_arguments_sound(st1, arguments, from + 1, done.push(r));
        }
    }
}

/// The moves into the argument registers keep an emitter sound.
pub proof fn lemma_pass_arguments_sound(st: EmitterView, values: Seq<u16>, from: int)
    requires
        st.sound(),
        0 <= from,
        values.len() <= ARGUMENT_REGISTERS,
        forall|i: int| 0 <= i < values.len() ==> values[i] < st.next,
    ensures
        pass_arguments(st, values, from).sound(),
        pass_arguments(st, values, from).continues(st),
        pass_arguments(st, values, from).next == st.next,
    decreases values.len() - from,
{
    if from < values.len() {
        let ins = instruction(Opcode::Move, (1 + from) as u16, values[from], 0);
        st.lemma_emit_sound(ins);
        lemma_pass_arguments_sound(st.emit(ins), values, from + 1);
    }
}

/// The prologue of a function keeps an emitter sound.
pub proof fn lemma_parameters_sound(st: EmitterView, parameters: Seq<TokenView>, from: int)
    requires
        st.sound(),
        0 <= from,
        parameters.len() <= ARGUMENT_REGISTERS,
    ensures
        bind_parameters(st, parameters, from) matches Ok(after) ==> after.sound()
            && after.continues(st),
    decreases parameters.len() - from,
{
    if from < parameters.len() {
        if let Ok((st1, slot)) = st.take_register(parameters[from]) {
            let ins = instruction(Opcode::Move, slot, (1 + from) as u16, 0);
            st1.lemma_emit_sound(ins);
            lemma_parameters_sound(
                st1.emit(ins).bind(parameters[from].text, slot),
                parameters,
                from + 1,
            );
        }
    }
}

/// Emitting statements keeps an emitter sound.
pub proof fn lemma_statements_sound(st: EmitterView, statements: Seq<StmtView>, from: int)
    requires
        st.sound(),
        0 <= from,
    ensures
        emit_statements(st, statements, from) matches Ok(after) ==> after.sound()
            && after.continues(st),
    decreases statements, statements.len() - from,
{
    if from < statements.len() {
        lemma_statement_sound(st, statements[from]);
        if let Ok(st1) = emit_statement(st, statements[from]) {
            lemma_statements_sound(st1, statements, from + 1);
        }
    }
}

/// Emitting a statement keeps an emitter sound.
pub proof fn lemma_statement_sound(st: EmitterView, s: StmtView)
    requires
        st.sound(),
    ensures
        emit_statement(st, s) matches Ok(after) ==> after.sound() && after.continues(st),
    decreases s, 0int,
{
    match s {
        StmtView::Let { token, name, value } => {
            lemma_expression_sound(st, value);
            if let Ok((st1, r)) = emit_expression(st, value) {
                lemma_lookup_is_bound(st1.symbols, name.text, st1.next);
                match lookup(st1.symbols, name.text) {
                    Some(slot) => {
                        st1.lemma_emit_sound(instruction(Opcode::Move, slot, r, 0));
                    },
                    None => {
                        if let Ok((st2, slot)) = st1.take_register(name) {
                            st2.lemma_emit_sound(instruction(Opcode::Move, slot, r, 0));
                        }
                    },
                }
            }
        },
        StmtView::Return { token, result } => {
            match result {
                Some(value) => {
                    lemma_expression_sound(st, value);
                    if let Ok((st1, r)) = emit_expression(st, value) {
                        st1.lemma_emit_sound(instruction(Opcode::Return, r, 0, 0));
                    }
                },
                None => {
                    let first = instruction(Opcode::LoadImm, RESULT_REGISTER, 0, 0);
                    st.lemma_emit_sound(first);
                    st.emit(first).lemma_emit_sound(
                        instruction(Opcode::Return, RESULT_REGISTER, 0, 0),
                    );
                },
            }
        },
        StmtView::Expression { expression } => {
            lemma_expression_sound(st, expression);
            if let Ok((st1, r)) = emit_expression(st, expression) {
                st1.lemma_emit_sound(instruction(Opcode::Move, RESULT_REGISTER, r, 0));
            }
        },
    }
}

/// Every instruction of a compiled program fits a machine with the
/// number of registers that it was compiled for.
pub proof fn lemma_compiled_program_fits(statements: Seq<StmtView>, limit: int)
    requires
        limit <= 0x1_0000,
    ensures
        compile_program(statements, limit) matches Ok(program) ==> forall|i: int|
            0 <= i < program.0.len() ==> (#[trigger] program.0[i]).fits(limit),
{
    if limit >= FIRST_FREE_REGISTER {
        lemma_statements_sound(EmitterView::fresh(limit), statements, 0);
    }
}

/// Appending a digit to a text multiplies its value by ten and adds the
/// digit.
proof fn lemma_decimal_value_push(text: Seq<char>, c: char)
    ensures
        decimal_value(text.push(c)) == decimal_value(text) * 10 + (c as int - '0' as int),
        all_decimal(text.push(c)) <==> all_decimal(text) && crate::lexer::decimal(c),
        all_decimal(text) ==> decimal_value(text) >= 0,
    decreases text.len(),
{
    assert(text.push(c).drop_last() =~= text);
    if all_decimal(text.push(c)) {
        assert(crate::lexer::decimal(text.push(c)[text.len() as int]));
        assert forall|i: int| 0 <= i < text.len() implies crate::lexer::decimal(
            #[trigger] text[i],
        ) by {
            assert(text[i] == text.push(c)[i]);
        }
    }
    if all_decimal(text) && text.len() > 0 {
        let front = text.drop_last();
        assert forall|i: int| 0 <= i < front.len() implies crate::lexer::decimal(
            #[trigger] front[i],
        ) by {
            assert(front[i] == text[i]);
        }
        lemma_decimal_value_push(front, text.last());
        assert(front.push(text.last()) =~= text);
    }
}

/// Reads the text of an integer literal as the value of a register.
pub fn parse_integer(text: &str) -> (r: Result<u16, CompileErrorKind>)
    ensures
        r == integer_value(text@),
{
    let mut value: u32 = 0;
    let mut valid = true;
    let mut fits = true;
    let mut empty = true;
    let ghost mut seen: Seq<char> = Seq::empty();
    let mut it = text.chars();
    loop
        invariant
            it.obeys_prophetic_iter_laws(),
            seen + it.remaining() == text@,
            empty == (seen.len() == 0),
            valid == all_decimal(seen),
            valid ==> (fits <==> decimal_value(seen) <= u16::MAX),
            valid && fits ==> value == decimal_value(seen),
            value <= u16::MAX,
        ensures
            seen == text@,
            empty == (seen.len() == 0),
            valid == all_decimal(seen),
            valid ==> (fits <==> decimal_value(seen) <= u16::MAX),
            valid && fits ==> value == decimal_value(seen),
            value <= u16::MAX,
        decreases text@.len() - seen.len(),
    {
        match it.next() {
            Some(c) => {
                proof {
                    lemma_decimal_value_push(seen, c);
                    assert(seen.push(c) + it.remaining() =~= text@);
                    seen = seen.push(c);
                }
                empty = false;
                if c >= '0' && c <= '9' {
                    let digit = c as u32 - '0' as u32;
                    let next = value * 10 + digit;
                    if next > 0xFFFF {
                        fits = false;
                    } else {
                        value = next;
                    }
                } else {
                    valid = false;
                }
            },
            None => {
                assert(seen =~= text@);
                break ;
            },
        }
    }
    if empty || !valid {
        Err(CompileErrorKind::InvalidInteger)
    } else if !fits {
        Err(CompileErrorKind::IntegerOutOfRange)
    } else {
        Ok(value as u16)
    }
}

/// The operation of a prefix operator.
pub fn prefix_opcode(kind: TokenKind) -> (op: Option<Opcode>)
    ensures
        op == prefix_operation(kind),
{
    match kind {
        TokenKind::Bang => Some(Opcode::Not),
        TokenKind::Minus => Some(Opcode::Neg),
        _ => None,
    }
}

/// The operation of an infix operator.
pub fn infix_opcode(kind: TokenKind) -> (op: Option<Opcode>)
    ensures
        op == infix_operation(kind),
{
    match kind {
        TokenKind::Plus => Some(Opcode::Add),
        TokenKind::Minus => Some(Opcode::Sub),
        TokenKind::Star => Some(Opcode::Mul),
        TokenKind::Slash => Some(Opcode::Div),
        TokenKind::Percent => Some(Opcode::Rem),
        TokenKind::EqualEqual => Some(Opcode::Equal),
        TokenKind::NotEqual => Some(Opcode::NotEqual),
        TokenKind::Less => Some(Opcode::Less),
        TokenKind::Greater => Some(Opcode::Greater),
        TokenKind::LessEqual => Some(Opcode::LessEqual),
        TokenKind::GreaterEqual => Some(Opcode::GreaterEqual),
        _ => None,
    }
}

/// An entry of the symbol table: a declared name and its register.
struct Symbol {
    name: Token,
    slot: u16,
}

/// The mathematical values of the entries of a symbol table.
spec fn symbol_views(symbols: Seq<Symbol>) -> Seq<SymbolView> {
    Seq::new(
        symbols.len(),
        |i: int| SymbolView { name: symbols[i].name@.text, slot: symbols[i].slot },
    )
}

/// The state of one compilation.
struct Emitter {
    instructions: Vec<Instruction>,
    data: Vec<u8>,
    /// The names in scope in the enclosing function.
    symbols: Vec<Symbol>,
    /// The next free register.
    next: u16,
    /// The number of registers of the machine.
    limit: u16,
}

impl View for Emitter {
    type V = EmitterView;

    closed spec fn view(&self) -> EmitterView {
        EmitterView {
            code: self.instructions@,
            data: self.data@,
            symbols: symbol_views(self.symbols@),
            next: self.next as int,
            limit: self.limit as int,
        }
    }
}

/// Whether an emitter did what the model says: on success the register
/// and the state after are the model's, on failure the error is.
spec fn emitted_as(r: Result<u16, CompileError>, after: EmitterView, model: Emitted) -> bool {
    match model {
        Ok((st, register)) => r is Ok && r->Ok_0 == register && after == st,
        Err(e) => r is Err && r->Err_0@ == e,
    }
}

/// Whether an emitter did what the model says: on success the state
/// after is the model's, on failure the error is.
spec fn done_as(
    r: Result<(), CompileError>,
    after: EmitterView,
    model: Result<EmitterView, CompileErrorView>,
) -> bool {
    match model {
        Ok(st) => r is Ok && after == st,
        Err(e) => r is Err && r->Err_0@ == e,
    }
}

/// An error at a token.
fn error_at(kind: CompileErrorKind, token: &Token) -> (e: CompileError)
    ensures
        e@ == (CompileErrorView { kind, token: token@ }),
{
    CompileError { kind, token: token.clone() }
}

impl Emitter {
    /// An emitter that has emitted nothing, for a machine with the given
    /// number of registers.
    fn new(registers: u16) -> (emitter: Emitter)
        ensures
            emitter@ == EmitterView::fresh(registers as int),
    {
        let emitter = Emitter {
            instructions: Vec::new(),
            data: Vec::new(),
            symbols: Vec::new(),
            next: FIRST_FREE_REGISTER,
            limit: registers,
        };
        assert(emitter@.symbols =~= Seq::empty());
        emitter
    }

    /// Hands out what was emitted.
    fn finish(self) -> (program: Bytecode)
        ensures
            program.instructions@ == self@.code,
            program.data@ == self@.data,
    {
        Bytecode { instructions: self.instructions, data: self.data }
    }

    /// Appends one instruction.
    fn emit(&mut self, op: Opcode, a: u16, b: u16, c: u16)
        ensures
            final(self)@ == old(self)@.emit(instruction(op, a, b, c)),
    {
        self.instructions.push(Instruction::new(op, a, b, c));
    }

    /// Replaces the instruction at an index.
    fn patch(&mut self, at: usize, op: Opcode, a: u16, b: u16, c: u16)
        requires
            at < old(self)@.code.len(),
        ensures
            final(self)@ == old(self)@.patch(at as int, instruction(op, a, b, c)),
    {
        self.instructions.set(at, Instruction::new(op, a, b, c));
    }

    /// Takes the next free register.
    fn take_register(&mut self, token: &Token) -> (r: Result<u16, CompileError>)
        ensures
            emitted_as(r, final(self)@, old(self)@.take_register(token@)),
            final(self)@.code == old(self)@.code,
    {
        if self.next < self.limit {
            let register = self.next;
            self.next += 1;
            Ok(register)
        } else {
            Err(error_at(CompileErrorKind::OutOfRegisters, token))
        }
    }

    /// Emits an operation that writes a fresh register.
    fn emit_fresh(&mut self, op: Opcode, b: u16, c: u16, token: &Token) -> (r: Result<
        u16,
        CompileError,
    >)
        ensures
            emitted_as(r, final(self)@, old(self)@.emit_fresh(op, b, c, token@)),
            r is Ok ==> final(self)@.code.len() >= old(self)@.code.len(),
    {
        match self.take_register(token) {
            Ok(register) => {
                self.emit(op, register, b, c);
                Ok(register)
            },
            Err(e) => Err(e),
        }
    }

    /// Appends a text to the data region and emits the load of its offset.
    fn emit_text(&mut self, token: &Token) -> (r: Result<u16, CompileError>)
        ensures
            emitted_as(r, final(self)@, old(self)@.emit_text(token@.text, token@)),
            r is Ok ==> final(self)@.code.len() >= old(self)@.code.len(),
    {
        if self.data.len() > MAX_ADDRESS {
            return Err(error_at(CompileErrorKind::DataTooLarge, token));
        }
        let offset = self.data.len() as u16;
        let text = token.text();
        self.data.extend_from_slice(text.as_bytes());
        self.data.push(0);
        assert(self.data@ =~= old(self).data@ + encode_utf8(token@.text) + seq![0u8]);
        self.emit_fresh(Opcode::LoadImm, offset, 0, token)
    }

    /// The register of a name, if it is in scope.
    fn lookup(&self, name: &Token) -> (slot: Option<u16>)
        ensures
            slot == lookup(self@.symbols, name@.text),
    {
        let mut i = self.symbols.len();
        assert(symbol_views(self.symbols@).subrange(0, i as int) =~= self@.symbols);
        while i > 0
            invariant
                i <= self.symbols.len(),
                lookup(symbol_views(self.symbols@).subrange(0, i as int), name@.text) == lookup(
                    self@.symbols,
                    name@.text,
                ),
            decreases i,
        {
            i -= 1;
            let ghost upto = symbol_views(self.symbols@).subrange(0, i + 1);
            assert(upto.drop_last() =~= symbol_views(self.symbols@).subrange(0, i as int));
            if str_eq(self.symbols[i].name.text(), name.text()) {
                return Some(self.symbols[i].slot);
            }
        }
        assert(symbol_views(self.symbols@).subrange(0, 0).len() == 0);
        None
    }

    /// Puts a name in scope.
    fn bind(&mut self, name: &Token, slot: u16)
        ensures
            final(self)@ == old(self)@.bind(name@.text, slot),
    {
        self.symbols.push(Symbol { name: name.clone(), slot });
        assert(self@.symbols =~= old(self)@.symbols.push(SymbolView { name: name@.text, slot }));
    }

    /// Emits an expression and says which register holds its value.
    fn emit_expression(&mut self, e: &Expression) -> (r: Result<u16, CompileError>)
        ensures
            emitted_as(r, final(self)@, emit_expression(old(self)@, e@)),
            r is Ok ==> final(self)@.code.len() >= old(self)@.code.len(),
        decreases e, 1int,
    {
        match e {
            Expression::Identifier { token } => match self.lookup(token) {
                Some(slot) => Ok(slot),
                None => Err(error_at(CompileErrorKind::UndeclaredName, token)),
            },
            Expression::IntegerLiteral { token } => match parse_integer(token.text()) {
                Ok(value) => self.emit_fresh(Opcode::LoadImm, value, 0, token),
                Err(kind) => Err(error_at(kind, token)),
            },
            Expression::FloatLiteral { token } => Err(
                error_at(CompileErrorKind::UnsupportedLiteral, token),
            ),
            Expression::StringLiteral { token } => self.emit_text(token),
            Expression::BooleanLiteral { token } => {
                let value: u16 = if token.kind() == TokenKind::True {
                    1
                } else {
                    0
                };
                self.emit_fresh(Opcode::LoadImm, value, 0, token)
            },
            Expression::Prefix { token, operand } => {
                let op = match prefix_opcode(token.kind()) {
                    Some(op) => op,
                    None => {
                        return Err(error_at(CompileErrorKind::UnknownOperator, token));
                    },
                };
                match self.emit_expression(operand) {
                    Ok(r) => self.emit_fresh(op, r, 0, token),
                    Err(e) => Err(e),
                }
            },
            Expression::Infix { token, left, right } => {
                let op = match infix_opcode(token.kind()) {
                    Some(op) => op,
                    None => {
                        return Err(error_at(CompileErrorKind::UnknownOperator, token));
                    },
                };
                let l = match self.emit_expression(left) {
                    Ok(l) => l,
                    Err(e) => {
                        return Err(e);
                    },
                };
                match self.emit_expression(right) {
                    Ok(r) => self.emit_fresh(op, l, r, token),
                    Err(e) => Err(e),
                }
            },
            Expression::If { .. } => self.emit_conditional(e),
            Expression::FunctionLiteral { .. } => self.emit_function(e),
            Expression::Call { .. } => self.emit_call(e),
        }
    }

    /// Emits an `if`.
    fn emit_conditional(&mut self, e: &Expression) -> (r: Result<u16, CompileError>)
        ensures
            emitted_as(r, final(self)@, emit_conditional(old(self)@, e@)),
            r is Ok ==> final(self)@.code.len() >= old(self)@.code.len(),
        decreases e, 0int,
    {
        match e {
            Expression::If { token, condition, consequence, alternative } => {
                proof {
                    assert(e@->If_consequence =~= stmt_views(consequence@));
                    if let Some(block) = alternative {
                        assert(e@->If_alternative.unwrap() =~= stmt_views(block@));
                    }
                }
                let test = match self.emit_expression(condition) {
                    Ok(test) => test,
                    Err(e) => {
                        return Err(e);
                    },
                };
                let value = match self.take_register(token) {
                    Ok(value) => value,
                    Err(e) => {
                        return Err(e);
                    },
                };
                let branch_at = self.instructions.len();
                self.emit(Opcode::JumpIfZero, test, 0, 0);
                match self.emit_statements(consequence) {
                    Ok(()) => {},
                    Err(e) => {
                        return Err(e);
                    },
                }
                self.emit(Opcode::Move, value, RESULT_REGISTER, 0);
                let skip_at = self.instructions.len();
                self.emit(Opcode::Jump, 0, 0, 0);
                let otherwise = self.instructions.len();
                match alternative {
                    Some(block) => {
                        match self.emit_statements(block) {
                            Ok(()) => {},
                            Err(e) => {
                                return Err(e);
                            },
                        }
                        self.emit(Opcode::Move, value, RESULT_REGISTER, 0);
                    },
                    None => {
                        self.emit(Opcode::LoadImm, value, 0, 0);
                    },
                }
                let end = self.instructions.len();
                if end > MAX_ADDRESS {
                    return Err(error_at(CompileErrorKind::ProgramTooLong, token));
                }
                self.patch(branch_at, Opcode::JumpIfZero, test, otherwise as u16, 0);
                self.patch(skip_at, Opcode::Jump, end as u16, 0, 0);
                Ok(value)
            },
            _ => Err(error_at(CompileErrorKind::UnknownOperator, e.token())),
        }
    }

    /// Emits a function literal.
    fn emit_function(&mut self, e: &Expression) -> (r: Result<u16, CompileError>)
        ensures
            emitted_as(r, final(self)@, emit_function(old(self)@, e@)),
            r is Ok ==> final(self)@.code.len() >= old(self)@.code.len(),
        decreases e, 0int,
    {
        match e {
            Expression::FunctionLiteral { token, parameters, body } => {
                proof {
                    assert(e@->FunctionLiteral_body =~= stmt_views(body@));
                }
                if parameters.len() > ARGUMENT_REGISTERS as usize {
                    return Err(error_at(CompileErrorKind::TooManyArguments, token));
                }
                let value = match self.take_register(token) {
                    Ok(value) => value,
                    Err(e) => {
                        return Err(e);
                    },
                };
                let skip_at = self.instructions.len();
                self.emit(Opcode::Jump, 0, 0, 0);
                let entry = self.instructions.len();
                let mut outer: Vec<Symbol> = Vec::new();
                core::mem::swap(&mut self.symbols, &mut outer);
                assert(self@.symbols =~= Seq::empty());
                match self.bind_parameters(parameters) {
                    Ok(()) => {},
                    Err(e) => {
                        return Err(e);
                    },
                }
                match self.emit_statements(body) {
                    Ok(()) => {},
                    Err(e) => {
                        return Err(e);
                    },
                }
                self.emit(Opcode::Return, RESULT_REGISTER, 0, 0);
                let end = self.instructions.len();
                if end > MAX_ADDRESS {
                    return Err(error_at(CompileErrorKind::ProgramTooLong, token));
                }
                core::mem::swap(&mut self.symbols, &mut outer);
                self.patch(skip_at, Opcode::Jump, end as u16, 0, 0);
                self.emit(Opcode::LoadImm, value, entry as u16, 0);
                Ok(value)
            },
            _ => Err(error_at(CompileErrorKind::UnknownOperator, e.token())),
        }
    }

    /// Emits a call.
    fn emit_call(&mut self, e: &Expression) -> (r: Result<u16, CompileError>)
        ensures
            emitted_as(r, final(self)@, emit_call(old(self)@, e@)),
            r is Ok ==> final(self)@.code.len() >= old(self)@.code.len(),
        decreases e, 0int,
    {
        match e {
            Expression::Call { token, callee, arguments } => {
                proof {
                    assert(e@->Call_arguments =~= expr_views(arguments@));
                }
                if arguments.len() > ARGUMENT_REGISTERS as usize {
                    return Err(error_at(CompileErrorKind::TooManyArguments, token));
                }
                let target = match self.emit_expression(callee) {
                    Ok(target) => target,
                    Err(e) => {
                        return Err(e);
                    },
                };
                let values = match self.emit_arguments(arguments) {
                    Ok(values) => values,
                    Err(e) => {
                        return Err(e);
                    },
                };
                self.pass_arguments(&values);
                self.emit(Opcode::Call, target, 0, 0);
                self.emit_fresh(Opcode::Move, RESULT_REGISTER, 0, token)
            },
            _ => Err(error_at(CompileErrorKind::UnknownOperator, e.token())),
        }
    }

    /// Emits the arguments of a call and says which registers hold them.
    fn emit_arguments(&mut self, arguments: &Vec<Expression>) -> (r: Result<
        Vec<u16>,
        CompileError,
    >)
        ensures
            match emit_arguments(old(self)@, expr_views(arguments@), 0, Seq::empty()) {
                Ok((st, values)) => r is Ok && r->Ok_0@ == values && final(self)@ == st
                    && values.len() == arguments.len(),
                Err(e) => r is Err && r->Err_0@ == e,
            },
            r is Ok ==> final(self)@.code.len() >= old(self)@.code.len(),
        decreases arguments, 0int,
    {
        let mut values: Vec<u16> = Vec::new();
        let mut i: usize = 0;
        while i < arguments.len()
            invariant
                i <= arguments.len(),
                values.len() == i,
                emit_arguments(self@, expr_views(arguments@), i as int, values@) == emit_arguments(
                    old(self)@,
                    expr_views(arguments@),
                    0,
                    Seq::empty(),
                ),
                self@.code.len() >= old(self)@.code.len(),
            decreases arguments.len() - i,
        {
            assert(expr_views(arguments@)[i as int] == arguments[i as int]@);
            match self.emit_expression(&arguments[i]) {
                Ok(r) => {
                    values.push(r);
                },
                Err(e) => {
                    return Err(e);
                },
            }
            i += 1;
        }
        Ok(values)
    }

    /// Emits the moves of the values of the arguments into the argument
    /// registers.
    fn pass_arguments(&mut self, values: &Vec<u16>)
        requires
            values.len() <= ARGUMENT_REGISTERS,
        ensures
            final(self)@ == pass_arguments(old(self)@, values@, 0),
            final(self)@.code.len() >= old(self)@.code.len(),
    {
        let mut i: usize = 0;
        while i < values.len()
            invariant
                i <= values.len() <= ARGUMENT_REGISTERS,
                pass_arguments(self@, values@, i as int) == pass_arguments(old(self)@, values@, 0),
                self@.code.len() >= old(self)@.code.len(),
            decreases values.len() - i,
        {
            self.emit(Opcode::Move, (1 + i) as u16, values[i], 0);
            i += 1;
        }
    }

    /// Emits the prologue of a function: each parameter gets a register
    /// of its own, filled from its argument register.
    fn bind_parameters(&mut self, parameters: &Vec<Token>) -> (r: Result<(), CompileError>)
        requires
            parameters.len() <= ARGUMENT_REGISTERS,
        ensures
            done_as(r, final(self)@, bind_parameters(old(self)@, token_views(parameters@), 0)),
            r is Ok ==> final(self)@.code.len() >= old(self)@.code.len(),
    {
        let mut i: usize = 0;
        while i < parameters.len()
            invariant
                i <= parameters.len() <= ARGUMENT_REGISTERS,
                bind_parameters(self@, token_views(parameters@), i as int) == bind_parameters(
                    old(self)@,
                    token_views(parameters@),
                    0,
                ),
                self@.code.len() >= old(self)@.code.len(),
            decreases parameters.len() - i,
        {
            let slot = match self.take_register(&parameters[i]) {
                Ok(slot) => slot,
                Err(e) => {
                    return Err(e);
                },
            };
            self.emit(Opcode::Move, slot, (1 + i) as u16, 0);
            self.bind(&parameters[i], slot);
            i += 1;
        }
        Ok(())
    }

    /// Emits statements in order.
    fn emit_statements(&mut self, statements: &Vec<Statement>) -> (r: Result<(), CompileError>)
        ensures
            done_as(r, final(self)@, emit_statements(old(self)@, stmt_views(statements@), 0)),
            r is Ok ==> final(self)@.code.len() >= old(self)@.code.len(),
        decreases statements, 0int,
    {
        let mut i: usize = 0;
        while i < statements.len()
            invariant
                i <= statements.len(),
                emit_statements(self@, stmt_views(statements@), i as int) == emit_statements(
                    old(self)@,
                    stmt_views(statements@),
                    0,
                ),
                self@.code.len() >= old(self)@.code.len(),
            decreases statements.len() - i,
        {
            assert(stmt_views(statements@)[i as int] == statements[i as int]@);
            match self.emit_statement(&statements[i]) {
                Ok(()) => {},
                Err(e) => {
                    return Err(e);
                },
            }
            i += 1;
        }
        Ok(())
    }

    /// Emits one statement.
    fn emit_statement(&mut self, s: &Statement) -> (r: Result<(), CompileError>)
        ensures
            done_as(r, final(self)@, emit_statement(old(self)@, s@)),
            r is Ok ==> final(self)@.code.len() >= old(self)@.code.len(),
        decreases s, 0int,
    {
        match s {
            Statement::Let { token, name, value } => {
                let r = match self.emit_expression(value) {
                    Ok(r) => r,
                    Err(e) => {
                        return Err(e);
                    },
                };
                match self.lookup(name) {
                    Some(slot) => {
                        self.emit(Opcode::Move, slot, r, 0);
                    },
                    None => {
                        let slot = match self.take_register(name) {
                            Ok(slot) => slot,
                            Err(e) => {
                                return Err(e);
                            },
                        };
                        self.emit(Opcode::Move, slot, r, 0);
                        self.bind(name, slot);
                    },
                }
                Ok(())
            },
            Statement::Return { token, result } => {
                match result {
                    Some(value) => {
                        let r = match self.emit_expression(value) {
                            Ok(r) => r,
                            Err(e) => {
                                return Err(e);
                            },
                        };
                        self.emit(Opcode::Return, r, 0, 0);
                    },
                    None => {
                        self.emit(Opcode::LoadImm, RESULT_REGISTER, 0, 0);
                        self.emit(Opcode::Return, RESULT_REGISTER, 0, 0);
                    },
                }
                Ok(())
            },
            Statement::Expression { expression } => {
                let r = match self.emit_expression(expression) {
                    Ok(r) => r,
                    Err(e) => {
                        return Err(e);
                    },
                };
                self.emit(Opcode::Move, RESULT_REGISTER, r, 0);
                Ok(())
            },
        }
    }
}

/// Compiles a program for a machine with the given number of registers.
pub fn compile(program: &Program, registers: u16) -> (r: Result<Bytecode, CompileError>)
    ensures
        match compile_program(program@, registers as int) {
            Ok((code, data)) => r is Ok && r->Ok_0.instructions@ == code && r->Ok_0.data@ == data,
            Err(e) => r is Err && r->Err_0@ == e,
        },
        r is Ok ==> forall|i: int|
            0 <= i < r->Ok_0.instructions@.len() ==> (#[trigger] r->Ok_0.instructions@[i]).fits(
                registers as int,
            ),
{
    proof {
        lemma_compiled_program_fits(program@, registers as int);
    }
    if registers < FIRST_FREE_REGISTER {
        return Err(
            CompileError { kind: CompileErrorKind::OutOfRegisters, token: program.token_literal() },
        );
    }
    let mut emitter = Emitter::new(registers);
    match emitter.emit_statements(&program.statements) {
        Ok(()) => {
            let bytecode = emitter.finish();
            assert(compile_program(program@, registers as int)->Ok_0.0 == bytecode.instructions@);
            Ok(bytecode)
        },
        Err(e) => Err(e),
    }
}

} // verus!
