//! The whole pipeline in one call, as an interactive reader needs it:
//! source text in, outcome out.

use crate::emitter::{
    compile, compile_program, lemma_compiled_program_fits, CompileError, CompileErrorView,
};
use crate::grammar::{diag_views, parse_program, DiagView, Diagnostic};
use crate::lexer::{lemma_end_of_file_forever, lemma_rest_unfolds, tokens_from, Lexer};
use crate::token::{TokenKind, TokenView};
use crate::op::Instruction;
use crate::parser::Parser;
use crate::vm::{AstraMachine, Fault, MachineView, Status, CALL_DEPTH, MEMORY_BYTES, REGISTERS};
use vstd::prelude::*;

verus! {

/// What became of one unit of input.
#[derive(Debug, PartialEq)]
pub enum Evaluation {
    /// The text is no program: the diagnostics, in source order.
    Rejected(Vec<Diagnostic>),
    /// The program cannot be compiled.
    Refused(CompileError),
    /// The program was run: the status of the machine when it stopped or
    /// the budget was spent, and what the result register held then.
    Ran { status: Status, value: u16 },
}

/// The mathematical value of an evaluation.
pub enum EvaluationView {
    Rejected(Seq<DiagView>),
    Refused(CompileErrorView),
    Ran { status: Status, value: u16 },
}

impl View for Evaluation {
    type V = EvaluationView;

    open spec fn view(&self) -> EvaluationView {
        match *self {
            Evaluation::Rejected(diagnostics) => EvaluationView::Rejected(
                diag_views(diagnostics@),
            ),
            Evaluation::Refused(error) => EvaluationView::Refused(error@),
            Evaluation::Ran { status, value } => EvaluationView::Ran { status, value },
        }
    }
}

/// What a machine of the default sizes reports after running a program
/// for at most `budget` steps. A data region larger than the memory is a
/// memory fault before the first step.
pub open spec fn run_program(code: Seq<Instruction>, data: Seq<u8>, budget: nat) -> EvaluationView {
    if data.len() > MEMORY_BYTES {
        EvaluationView::Ran { status: Status::Faulted(Fault::MemoryOutOfBounds), value: 0 }
    } else {
        let end = MachineView::fresh(
            REGISTERS as nat,
            MEMORY_BYTES as nat,
            CALL_DEPTH as nat,
        ).loaded(code, data).run(budget);
        EvaluationView::Ran { status: end.status, value: end.registers[0] }
    }
}

/// What becomes of a source text: it is lexed and parsed; if that leaves
/// no diagnostic it is compiled for a machine of the default sizes; if
/// that succeeds it is run on a fresh such machine for at most `budget`
/// steps.
pub open spec fn evaluate(source: Seq<char>, budget: nat) -> EvaluationView {
    let (program, diagnostics) = parse_program(tokens_from(source, 0));
    if diagnostics.len() > 0 {
        EvaluationView::Rejected(diagnostics)
    } else {
        match compile_program(program, REGISTERS as int) {
            Err(error) => EvaluationView::Refused(error),
            Ok((code, data)) => run_program(code, data, budget),
        }
    }
}

/// Whatever the source text and the budget, an evaluation never ends in
/// a fault for an unknown operation or a missing register: what the
/// emitter gives, the machine can execute.
pub proof fn lemma_evaluation_runs_clean(source: Seq<char>, budget: nat)
    ensures
        evaluate(source, budget) != (EvaluationView::Ran {
            status: Status::Faulted(Fault::UnknownOpcode),
            value: evaluate(source, budget)->Ran_value,
        }),
        evaluate(source, budget) != (EvaluationView::Ran {
            status: Status::Faulted(Fault::InvalidRegister),
            value: evaluate(source, budget)->Ran_value,
        }),
{
    let (program, diagnostics) = parse_program(tokens_from(source, 0));
    if diagnostics.len() == 0 {
        lemma_compiled_program_fits(program, REGISTERS as int);
        if let Ok((code, data)) = compile_program(program, REGISTERS as int) {
            if data.len() <= MEMORY_BYTES {
                let machine = MachineView::fresh(
                    REGISTERS as nat,
                    MEMORY_BYTES as nat,
                    CALL_DEPTH as nat,
                ).loaded(code, data);
                machine.lemma_fitting_program_runs_clean(budget);
            }
        }
    }
}

/// Evaluates one unit of input on fresh lexer, parser and machine state.
/// The machine takes at most `budget` steps: a program that has not
/// stopped by then is reported as still running. The input must be
/// shorter than `usize::MAX` characters, as the lexer asks.
pub fn eval(input: &String, budget: usize) -> (outcome: Evaluation)
    requires
        input@.len() < usize::MAX,
    ensures
        outcome@ == evaluate(input@, budget as nat),
{
    let lexer = Lexer::new(input.clone());
    let mut parser = Parser::new(lexer);
    let (program, diagnostics) = parser.parse_program();
    if diagnostics.len() > 0 {
        return Evaluation::Rejected(diagnostics);
    }
    let bytecode = match compile(&program, REGISTERS) {
        Ok(bytecode) => bytecode,
        Err(error) => {
            return Evaluation::Refused(error);
        },
    };
    let mut machine = AstraMachine::new();
    if !machine.load(bytecode) {
        return Evaluation::Ran { status: Status::Faulted(Fault::MemoryOutOfBounds), value: 0 };
    }
    proof {
        machine@.lemma_run_keeps_shape(budget as nat);
    }
    let status = machine.run(budget);
    match machine.register(0) {
        Some(value) => Evaluation::Ran { status, value },
        None => Evaluation::Ran { status, value: 0 },
    }
}

/// Whether a token opens a pair of delimiters.
pub open spec fn opens(kind: TokenKind) -> bool {
    kind == TokenKind::LeftParen || kind == TokenKind::LeftSquare || kind == TokenKind::LeftBrace
}

/// Whether a token closes a pair of delimiters.
pub open spec fn closes(kind: TokenKind) -> bool {
    kind == TokenKind::RightParen || kind == TokenKind::RightSquare || kind
        == TokenKind::RightBrace
}

/// How many delimiters are open after the tokens from index `from` on,
/// when `depth` were open before. A closing delimiter with none open is
/// passed over: the parser will report it.
pub open spec fn open_delimiters(tokens: Seq<TokenView>, from: int, depth: nat) -> nat
    decreases tokens.len() - from,
{
    if 0 <= from < tokens.len() {
        open_delimiters(
            tokens,
            from + 1,
            if opens(tokens[from].kind) {
                depth + 1
            } else if closes(tokens[from].kind) && depth > 0 {
                (depth - 1) as nat
            } else {
                depth
            },
        )
    } else {
        depth
    }
}

/// Whether a token ends a statement: a semicolon or a closing brace.
pub open spec fn terminates(kind: TokenKind) -> bool {
    kind == TokenKind::SemiColon || kind == TokenKind::RightBrace
}

/// Whether a source text is a complete unit of input: it closes every
/// delimiter that it opens, and its last token, if it has any, ends a
/// statement.
pub open spec fn complete(source: Seq<char>) -> bool {
    let tokens = tokens_from(source, 0);
    &&& open_delimiters(tokens, 0, 0) == 0
    &&& tokens.len() > 0 ==> terminates(tokens.last().kind)
}

/// Says whether the input is a complete unit: every delimiter that it
/// opens is closed, and it ends with a semicolon or a closing brace, or
/// holds no token at all. A reader that feeds lines goes on reading while
/// it is not. The input must be shorter than `usize::MAX` characters, as
/// the lexer asks.
pub fn is_complete(input: &String) -> (b: bool)
    requires
        input@.len() < usize::MAX,
    ensures
        b == complete(input@),
{
    let mut lexer = Lexer::new(input.clone());
    let ghost tokens = tokens_from(input@, 0);
    let ghost mut at: int = 0;
    let mut depth: usize = 0;
    let mut terminated = true;
    proof {
        lemma_end_of_file_forever(input@, 0, 0);
        assert(lexer@.rest() =~= tokens.subrange(0, tokens.len() as int));
    }
    loop
        invariant
            lexer.wf(),
            lexer@.input == input@,
            0 <= at <= tokens.len(),
            tokens == tokens_from(input@, 0),
            lexer@.rest() == tokens.subrange(at, tokens.len() as int),
            depth <= at,
            tokens.len() <= input@.len() <= usize::MAX,
            open_delimiters(tokens, at, depth as nat) == open_delimiters(tokens, 0, 0),
            terminated == (at > 0 ==> terminates(tokens[at - 1].kind)),
        ensures
            depth == open_delimiters(tokens, 0, 0),
            terminated == (tokens.len() > 0 ==> terminates(tokens.last().kind)),
        decreases tokens.len() - at,
    {
        proof {
                lemma_rest_unfolds(lexer@.input, lexer@.pos);
        }
        let ghost before = lexer@;
        let kind = lexer.next_token().unwrap().kind();
        if kind == TokenKind::EndOfFile {
            assert(at == tokens.len());
            break ;
        }
        proof {
            assert(before.rest() == seq![before.next_token()] + lexer@.rest());
            assert(before.rest()[0] == tokens[at]);
            assert(lexer@.rest() =~= before.rest().subrange(1, before.rest().len() as int));
            assert(lexer@.rest() =~= tokens.subrange(at + 1, tokens.len() as int));
            at = at + 1;
        }
        terminated = kind == TokenKind::SemiColon || kind == TokenKind::RightBrace;
        if kind == TokenKind::LeftParen || kind == TokenKind::LeftSquare || kind
            == TokenKind::LeftBrace {
            depth += 1;
        } else if (kind == TokenKind::RightParen || kind == TokenKind::RightSquare || kind
            == TokenKind::RightBrace) && depth > 0 {
            depth -= 1;
        }
    }
    depth == 0 && terminated
}

} // verus!
