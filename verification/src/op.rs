//! The instruction set: operation codes, instructions and programs.

use vstd::prelude::*;

verus! {

/// The operations of the machine.
#[derive(Clone, Copy, Debug, PartialEq, Eq, Structural)]
pub enum Opcode {
    /// Stop.
    Halt,
    /// `r[a] = b`.
    LoadImm,
    /// `r[a] = r[b]`.
    Move,
    /// `r[a] = r[b] + r[c]`, wrapping.
    Add,
    /// `r[a] = r[b] - r[c]`, wrapping.
    Sub,
    /// `r[a] = r[b] * r[c]`, wrapping.
    Mul,
    /// `r[a] = r[b] / r[c]`; a zero divisor is a fault.
    Div,
    /// `r[a] = r[b] % r[c]`; a zero divisor is a fault.
    Rem,
    /// `r[a] = -r[b]`, wrapping.
    Neg,
    /// `r[a] = 1` if `r[b]` is zero, else `0`.
    Not,
    /// `r[a] = 1` if `r[b] == r[c]`, else `0`.
    Equal,
    /// `r[a] = 1` if `r[b] != r[c]`, else `0`.
    NotEqual,
    /// `r[a] = 1` if `r[b] < r[c]`, else `0`.
    Less,
    /// `r[a] = 1` if `r[b] > r[c]`, else `0`.
    Greater,
    /// `r[a] = 1` if `r[b] <= r[c]`, else `0`.
    LessEqual,
    /// `r[a] = 1` if `r[b] >= r[c]`, else `0`.
    GreaterEqual,
    /// `r[a] = memory[r[b] + c]`.
    Load,
    /// `memory[r[b] + c] = r[a]`, the low byte.
    Store,
    /// Continue at instruction `a`.
    Jump,
    /// Continue at instruction `b` if `r[a]` is zero.
    JumpIfZero,
    /// Remember the next instruction and continue at instruction `r[a]`.
    Call,
    /// `r[0] = r[a]`, then continue behind the latest call, or stop if
    /// there is none.
    Return,
}

impl Opcode {
    /// The byte that stands for an operation.
    pub open spec fn code(self) -> u8 {
        match self {
            Opcode::Halt => 0,
            Opcode::LoadImm => 1,
            Opcode::Move => 2,
            Opcode::Add => 3,
            Opcode::Sub => 4,
            Opcode::Mul => 5,
            Opcode::Div => 6,
            Opcode::Rem => 7,
            Opcode::Neg => 8,
            Opcode::Not => 9,
            Opcode::Equal => 10,
            Opcode::NotEqual => 11,
            Opcode::Less => 12,
            Opcode::Greater => 13,
            Opcode::LessEqual => 14,
            Opcode::GreaterEqual => 15,
            Opcode::Load => 16,
            Opcode::Store => 17,
            Opcode::Jump => 18,
            Opcode::JumpIfZero => 19,
            Opcode::Call => 20,
            Opcode::Return => 21,
        }
    }

    /// The operation that a byte stands for, if any.
    pub open spec fn of(byte: u8) -> Option<Opcode> {
        if byte == 0 {
            Some(Opcode::Halt)
        } else if byte == 1 {
            Some(Opcode::LoadImm)
        } else if byte == 2 {
            Some(Opcode::Move)
        } else if byte == 3 {
            Some(Opcode::Add)
        } else if byte == 4 {
            Some(Opcode::Sub)
        } else if byte == 5 {
            Some(Opcode::Mul)
        } else if byte == 6 {
            Some(Opcode::Div)
        } else if byte == 7 {
            Some(Opcode::Rem)
        } else if byte == 8 {
            Some(Opcode::Neg)
        } else if byte == 9 {
            Some(Opcode::Not)
        } else if byte == 10 {
            Some(Opcode::Equal)
        } else if byte == 11 {
            Some(Opcode::NotEqual)
        } else if byte == 12 {
            Some(Opcode::Less)
        } else if byte == 13 {
            Some(Opcode::Greater)
        } else if byte == 14 {
            Some(Opcode::LessEqual)
        } else if byte == 15 {
            Some(Opcode::GreaterEqual)
        } else if byte == 16 {
            Some(Opcode::Load)
        } else if byte == 17 {
            Some(Opcode::Store)
        } else if byte == 18 {
            Some(Opcode::Jump)
        } else if byte == 19 {
            Some(Opcode::JumpIfZero)
        } else if byte == 20 {
            Some(Opcode::Call)
        } else if byte == 21 {
            Some(Opcode::Return)
        } else {
            None
        }
    }

    /// The byte that stands for this operation.
    pub fn encode(self) -> (byte: u8)
        ensures
            byte == self.code(),
            Opcode::of(byte) == Some(self),
    {
        match self {
            Opcode::Halt => 0,
            Opcode::LoadImm => 1,
            Opcode::Move => 2,
            Opcode::Add => 3,
            Opcode::Sub => 4,
            Opcode::Mul => 5,
            Opcode::Div => 6,
            Opcode::Rem => 7,
            Opcode::Neg => 8,
            Opcode::Not => 9,
            Opcode::Equal => 10,
            Opcode::NotEqual => 11,
            Opcode::Less => 12,
            Opcode::Greater => 13,
            Opcode::LessEqual => 14,
            Opcode::GreaterEqual => 15,
            Opcode::Load => 16,
            Opcode::Store => 17,
            Opcode::Jump => 18,
            Opcode::JumpIfZero => 19,
            Opcode::Call => 20,
            Opcode::Return => 21,
        }
    }

    /// The operation that a byte stands for; `None` for a byte that
    /// stands for none.
    pub fn decode(byte: u8) -> (op: Option<Opcode>)
        ensures
            op == Opcode::of(byte),
    {
        if byte == 0 {
            Some(Opcode::Halt)
        } else if byte == 1 {
            Some(Opcode::LoadImm)
        } else if byte == 2 {
            Some(Opcode::Move)
        } else if byte == 3 {
            Some(Opcode::Add)
        } else if byte == 4 {
            Some(Opcode::Sub)
        } else if byte == 5 {
            Some(Opcode::Mul)
        } else if byte == 6 {
            Some(Opcode::Div)
        } else if byte == 7 {
            Some(Opcode::Rem)
        } else if byte == 8 {
            Some(Opcode::Neg)
        } else if byte == 9 {
            Some(Opcode::Not)
        } else if byte == 10 {
            Some(Opcode::Equal)
        } else if byte == 11 {
            Some(Opcode::NotEqual)
        } else if byte == 12 {
            Some(Opcode::Less)
        } else if byte == 13 {
            Some(Opcode::Greater)
        } else if byte == 14 {
            Some(Opcode::LessEqual)
        } else if byte == 15 {
            Some(Opcode::GreaterEqual)
        } else if byte == 16 {
            Some(Opcode::Load)
        } else if byte == 17 {
            Some(Opcode::Store)
        } else if byte == 18 {
            Some(Opcode::Jump)
        } else if byte == 19 {
            Some(Opcode::JumpIfZero)
        } else if byte == 20 {
            Some(Opcode::Call)
        } else if byte == 21 {
            Some(Opcode::Return)
        } else {
            None
        }
    }

    /// Encoding and decoding are inverse to each other: a byte stands for
    /// an operation if and only if it is that operation's code.
    pub proof fn lemma_code_round_trip(op: Opcode, byte: u8)
        ensures
            Opcode::of(op.code()) == Some(op),
            Opcode::of(byte) == Some(op) <==> byte == op.code(),
    {
    }
}

/// One instruction: the byte of an operation and three operands, each a
/// register index, an immediate value or an offset, as the operation says.
#[derive(Clone, Copy, Debug, PartialEq, Eq, Structural)]
pub struct Instruction {
    pub opcode: u8,
    pub a: u16,
    pub b: u16,
    pub c: u16,
}

impl Instruction {
    /// Whether a machine with the given number of registers can execute
    /// this instruction without a fault of form: its byte stands for an
    /// operation, and every operand that the operation takes for a
    /// register names one that the machine has.
    pub open spec fn fits(self, registers: int) -> bool {
        match Opcode::of(self.opcode) {
            None => false,
            Some(Opcode::Halt) | Some(Opcode::Jump) => true,
            Some(Opcode::LoadImm) | Some(Opcode::JumpIfZero) | Some(Opcode::Call) => self.a
                < registers,
            Some(Opcode::Return) => self.a < registers && 0 < registers,
            Some(Opcode::Move)
            | Some(Opcode::Neg)
            | Some(Opcode::Not)
            | Some(Opcode::Load)
            | Some(Opcode::Store) => self.a < registers && self.b < registers,
            Some(_) => self.a < registers && self.b < registers && self.c < registers,
        }
    }

    /// The instruction of an operation with its operands.
    pub fn new(op: Opcode, a: u16, b: u16, c: u16) -> (ins: Instruction)
        ensures
            ins == (Instruction { opcode: op.code(), a, b, c }),
    {
        Instruction { opcode: op.encode(), a, b, c }
    }
}

/// A program: the instructions in order, and the data region that holds
/// the literals too large for a register.
#[derive(Debug, PartialEq)]
pub struct Bytecode {
    pub instructions: Vec<Instruction>,
    pub data: Vec<u8>,
}

} // verus!
