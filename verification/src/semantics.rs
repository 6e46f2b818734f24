//! What a program means, for the programs whose meaning is plain
//! arithmetic, and the proof that the machine computes it: the code that
//! the emitter gives for a constant expression leaves the value of the
//! expression in its register.

use crate::ast::{ExprView, StmtView};
use crate::emitter::{
    compile_program, emit_expression, emit_statement, emit_statements, infix_operation,
    instruction, integer_value, lemma_expression_sound, prefix_operation, CompileErrorView,
    EmitterView, RESULT_REGISTER,
};
use crate::grammar::{parse_program, DiagView};
use crate::lexer::tokens_from;
use crate::op::{Instruction, Opcode};
use crate::repl::{evaluate, EvaluationView};
use crate::token::TokenKind;
use crate::vm::{flag, wrap, MachineView, Status, CALL_DEPTH, MEMORY_BYTES, REGISTERS};
use vstd::prelude::*;

verus! {

/// The value of a constant expression: one built from integer and boolean
/// literals by prefix and infix operators. Arithmetic wraps at sixteen
/// bits; comparisons and negation give one or zero. There is no value
/// where a literal does not fit a register, where a divisor is zero, and
/// for every other expression.
pub open spec fn value_of(e: ExprView) -> Option<u16>
    decreases e,
{
    match e {
        ExprView::IntegerLiteral { token } => match integer_value(token.text) {
            Ok(value) => Some(value),
            Err(_) => None,
        },
        ExprView::BooleanLiteral { token } => Some(flag(token.kind == TokenKind::True)),
        ExprView::Prefix { token, operand } => match (
            prefix_operation(token.kind),
            value_of(*operand),
        ) {
            (Some(Opcode::Not), Some(v)) => Some(flag(v == 0)),
            (Some(Opcode::Neg), Some(v)) => Some(wrap(-v)),
            _ => None,
        },
        ExprView::Infix { token, left, right } => match (
            infix_operation(token.kind),
            value_of(*left),
            value_of(*right),
        ) {
            (Some(op), Some(x), Some(y)) => MachineView::compute(op, x, y),
            _ => None,
        },
        _ => None,
    }
}

/// Whether a machine holds, from an index on, the code that an emitter
/// has emitted from there on.
pub open spec fn holds_code(m: MachineView, code: Seq<Instruction>, from: int) -> bool {
    &&& code.len() <= m.program.len()
    &&& forall|i: int| from <= i < code.len() ==> m.program[i] == #[trigger] code[i]
}

/// Emitting a constant expression only appends: the code before stays,
/// and so do the data region and the names in scope.
pub proof fn lemma_constant_appends(st: EmitterView, e: ExprView)
    requires
        st.sound(),
        emit_expression(st, e) is Ok,
        value_of(e) is Some,
    ensures
        ({
            let after = emit_expression(st, e)->Ok_0.0;
            &&& after.sound()
            &&& after.continues(st)
            &&& emit_expression(st, e)->Ok_0.1 < after.next
            &&& st.next <= emit_expression(st, e)->Ok_0.1
            &&& after.code.len() > st.code.len()
            &&& after.data == st.data
            &&& after.symbols == st.symbols
            &&& forall|i: int| 0 <= i < st.code.len() ==> after.code[i] == st.code[i]
        }),
    decreases e,
{
    lemma_expression_sound(st, e);
    match e {
        ExprView::Prefix { token, operand } => {
            lemma_constant_appends(st, *operand);
        },
        ExprView::Infix { token, left, right } => {
            lemma_constant_appends(st, *left);
            let st1 = emit_expression(st, *left)->Ok_0.0;
            lemma_constant_appends(st1, *right);
        },
        _ => {},
    }
}

/// What running the code of an expression does to a machine: it arrives
/// behind the code, still running, with the value in the register of the
/// expression, and with the registers taken before, the memory and the
/// return addresses as they were.
pub open spec fn computes(
    m: MachineView,
    end: MachineView,
    st: EmitterView,
    after: EmitterView,
    register: u16,
    value: u16,
) -> bool {
    &&& end.status == Status::Running
    &&& end.pc == after.code.len()
    &&& end.registers.len() == m.registers.len()
    &&& end.registers[register as int] == value
    &&& forall|j: int| 0 <= j < st.next ==> end.registers[j] == m.registers[j]
    &&& end.memory == m.memory
    &&& end.calls == m.calls
    &&& end.call_limit == m.call_limit
    &&& end.program == m.program
}

/// One step of a machine at an instruction that writes a register which
/// it has.
proof fn lemma_step_writes(m: MachineView, op: Opcode, a: u16, b: u16, c: u16, value: u16)
    requires
        m.status == Status::Running,
        0 <= m.pc < m.program.len(),
        m.program[m.pc] == instruction(op, a, b, c),
        m.has(a),
        match op {
            Opcode::LoadImm => value == b,
            Opcode::Not => m.has(b) && value == flag(m.reg(b) == 0),
            Opcode::Neg => m.has(b) && value == wrap(-m.reg(b)),
            Opcode::Move => m.has(b) && value == m.reg(b),
            _ => m.has(b) && m.has(c) && MachineView::compute(op, m.reg(b), m.reg(c)) == Some(
                value,
            ),
        },
    ensures
        ran(m, 1) == m.put(a, value),
{
    reveal(ran);
    Opcode::lemma_code_round_trip(op, op.code());
    assert(m.run(1) == m.step().run(0));
}

/// The machine after at most `budget` steps. The proofs below reason
/// about whole runs and need not look into a step.
#[verifier::opaque]
spec fn ran(m: MachineView, budget: nat) -> MachineView {
    m.run(budget)
}

/// Running for two budgets in a row is running for their sum.
proof fn lemma_ran_splits(m: MachineView, first: nat, second: nat)
    ensures
        ran(m, first + second) == ran(ran(m, first), second),
{
    reveal(ran);
    m.lemma_run_splits(first, second);
}

/// The length of the code that an expression adds.
spec fn added(st: EmitterView, e: ExprView) -> nat {
    (emit_expression(st, e)->Ok_0.0.code.len() - st.code.len()) as nat
}

/// What `lemma_constant_runs` claims.
spec fn runs(st: EmitterView, e: ExprView, m: MachineView) -> bool {
    computes(
        m,
        ran(m, added(st, e)),
        st,
        emit_expression(st, e)->Ok_0.0,
        emit_expression(st, e)->Ok_0.1,
        value_of(e)->0,
    )
}

/// What `lemma_constant_runs` asks.
spec fn ready(st: EmitterView, e: ExprView, m: MachineView) -> bool {
    &&& st.sound()
    &&& emit_expression(st, e) is Ok
    &&& value_of(e) is Some
    &&& m.status == Status::Running
    &&& m.pc == st.code.len()
    &&& m.registers.len() >= st.limit
    &&& holds_code(m, emit_expression(st, e)->Ok_0.0.code, st.code.len() as int)
}

/// The case of a literal.
proof fn lemma_literal_runs(st: EmitterView, e: ExprView, m: MachineView)
    requires
        ready(st, e, m),
        e is IntegerLiteral || e is BooleanLiteral,
    ensures
        runs(st, e, m),
{
    let (after, register) = emit_expression(st, e)->Ok_0;
    let value = value_of(e)->0;
    assert(after.code == st.code.push(instruction(Opcode::LoadImm, register, value, 0)));
    assert(m.program[m.pc] == after.code[st.code.len() as int]);
    lemma_step_writes(m, Opcode::LoadImm, register, value, 0, value);
}

/// The case of a prefix operator.
proof fn lemma_prefix_runs(st: EmitterView, e: ExprView, m: MachineView)
    requires
        ready(st, e, m),
        e is Prefix,
    ensures
        runs(st, e, m),
    decreases e, 0int,
{
    let (after, register) = emit_expression(st, e)->Ok_0;
    let value = value_of(e)->0;
    let token = e->Prefix_token;
    let operand = *e->Prefix_operand;
    let op = prefix_operation(token.kind)->0;
    let (st1, r) = emit_expression(st, operand)->Ok_0;
    lemma_constant_appends(st, operand);
    let n = added(st, operand);
    assert(after.code == st1.code.push(instruction(op, register, r, 0)));
    assert(holds_code(m, st1.code, st.code.len() as int)) by {
        assert forall|i: int| st.code.len() <= i < st1.code.len() implies m.program[i]
            == st1.code[i] by {
            assert(after.code[i] == st1.code[i]);
        }
    }
    lemma_constant_runs(st, operand, m);
    let m1 = ran(m, n);
    assert(m1.program[m1.pc] == after.code[st1.code.len() as int]);
    lemma_step_writes(m1, op, register, r, 0, value);
    lemma_ran_splits(m, n, 1);
}

/// The case of an infix operator.
proof fn lemma_infix_runs(st: EmitterView, e: ExprView, m: MachineView)
    requires
        ready(st, e, m),
        e is Infix,
    ensures
        runs(st, e, m),
    decreases e, 0int,
{
    let (after, register) = emit_expression(st, e)->Ok_0;
    let value = value_of(e)->0;
    let token = e->Infix_token;
    let left = *e->Infix_left;
    let right = *e->Infix_right;
    let op = infix_operation(token.kind)->0;
    let (st1, l) = emit_expression(st, left)->Ok_0;
    lemma_constant_appends(st, left);
    let (st2, r) = emit_expression(st1, right)->Ok_0;
    lemma_constant_appends(st1, right);
    let n1 = added(st, left);
    let n2 = added(st1, right);
    assert(after.code == st2.code.push(instruction(op, register, l, r)));
    assert(holds_code(m, st1.code, st.code.len() as int)) by {
        assert forall|i: int| st.code.len() <= i < st1.code.len() implies m.program[i]
            == st1.code[i] by {
            assert(after.code[i] == st2.code[i]);
            assert(st2.code[i] == st1.code[i]);
        }
    }
    lemma_constant_runs(st, left, m);
    let m1 = ran(m, n1);
    assert(holds_code(m1, st2.code, st1.code.len() as int)) by {
        assert forall|i: int| st1.code.len() <= i < st2.code.len() implies m1.program[i]
            == st2.code[i] by {
            assert(after.code[i] == st2.code[i]);
        }
    }
    lemma_constant_runs(st1, right, m1);
    let m2 = ran(m1, n2);
    assert(m2.registers[l as int] == value_of(left)->0);
    assert(m2.program[m2.pc] == after.code[st2.code.len() as int]);
    lemma_step_writes(m2, op, register, l, r, value);
    lemma_ran_splits(m, n1, n2);
    lemma_ran_splits(m, n1 + n2, 1);
}

/// The induction over constant expressions.
proof fn lemma_constant_runs(st: EmitterView, e: ExprView, m: MachineView)
    requires
        ready(st, e, m),
    ensures
        runs(st, e, m),
    decreases e, 1int,
{
    match e {
        ExprView::IntegerLiteral { .. } | ExprView::BooleanLiteral { .. } => {
            lemma_literal_runs(st, e, m);
        },
        ExprView::Prefix { .. } => {
            lemma_prefix_runs(st, e, m);
        },
        ExprView::Infix { .. } => {
            lemma_infix_runs(st, e, m);
        },
        _ => {},
    }
}

/// The code of a constant expression computes its value: a machine that
/// holds the code and stands at its start arrives behind it, after as
/// many steps as the code is long, with the value in the register that
/// the emitter names.
pub proof fn lemma_constant_expression_is_computed(st: EmitterView, e: ExprView, m: MachineView)
    requires
        st.sound(),
        emit_expression(st, e) is Ok,
        value_of(e) is Some,
        m.status == Status::Running,
        m.pc == st.code.len(),
        m.registers.len() >= st.limit,
        holds_code(m, emit_expression(st, e)->Ok_0.0.code, st.code.len() as int),
    ensures
        computes(
            m,
            m.run((emit_expression(st, e)->Ok_0.0.code.len() - st.code.len()) as nat),
            st,
            emit_expression(st, e)->Ok_0.0,
            emit_expression(st, e)->Ok_0.1,
            value_of(e)->0,
        ),
{
    reveal(ran);
    lemma_constant_runs(st, e, m);
}

/// The end of a program that is one expression statement: the value is
/// moved into the result register, the machine halts at the end of the
/// program, and no further budget changes that.
proof fn lemma_statement_ends(m: MachineView, r: u16, value: u16, budget: nat)
    requires
        m.status == Status::Running,
        m.pc == m.program.len() - 1,
        m.pc >= 0,
        m.program[m.pc] == instruction(Opcode::Move, RESULT_REGISTER, r, 0),
        m.has(RESULT_REGISTER),
        m.has(r),
        m.reg(r) == value,
        budget >= 2,
    ensures
        m.run(budget).status == Status::Halted,
        m.run(budget).registers[0] == value,
{
    reveal(ran);
    lemma_step_writes(m, Opcode::Move, RESULT_REGISTER, r, 0, value);
    let m1 = m.put(RESULT_REGISTER, value);
    assert(m.run(1) == m1);
    assert(m1.step() == m1.halt());
    assert(m1.run(1) == m1.step().run(0));
    m.lemma_run_splits(1, 1);
    m.lemma_run_splits(2, (budget - 2) as nat);
    m.run(2).lemma_stopped_stays((budget - 2) as nat);
}

/// A source text that is one constant expression evaluates to the value
/// of the expression, given the budget for its code: the pipeline as a
/// whole does the arithmetic that the expression spells.
pub proof fn lemma_constant_source_is_evaluated(source: Seq<char>, e: ExprView, budget: nat)
    requires
        parse_program(tokens_from(source, 0)) == (
            seq![StmtView::Expression { expression: e }],
            Seq::<DiagView>::empty(),
        ),
        value_of(e) is Some,
        compile_program(seq![StmtView::Expression { expression: e }], REGISTERS as int) is Ok,
        budget > compile_program(
            seq![StmtView::Expression { expression: e }],
            REGISTERS as int,
        )->Ok_0.0.len(),
    ensures
        evaluate(source, budget) == (EvaluationView::Ran {
            status: Status::Halted,
            value: value_of(e)->0,
        }),
{
    let statements = seq![StmtView::Expression { expression: e }];
    let st = EmitterView::fresh(REGISTERS as int);
    let (code, data) = compile_program(statements, REGISTERS as int)->Ok_0;
    assert(emit_statements(st, statements, 0) is Ok);
    assert(statements[0] == StmtView::Expression { expression: e });
    assert(emit_statement(st, statements[0]) is Ok);
    assert(emit_expression(st, e) is Ok);
    let (st1, r) = emit_expression(st, e)->Ok_0;
    let last = instruction(Opcode::Move, RESULT_REGISTER, r, 0);
    let st2 = st1.emit(last);
    assert(emit_statement(st, statements[0]) == Ok::<EmitterView, CompileErrorView>(st2));
    assert(emit_statements(st2, statements, 1) == Ok::<EmitterView, CompileErrorView>(st2));
    assert(code == st2.code);
    assert(data == st2.data);
    lemma_constant_appends(st, e);
    assert(data.len() == 0);
    let m = MachineView::fresh(REGISTERS as nat, MEMORY_BYTES as nat, CALL_DEPTH as nat).loaded(
        code,
        data,
    );
    let n = st1.code.len();
    assert(holds_code(m, st1.code, 0)) by {
        assert forall|i: int| 0 <= i < st1.code.len() implies m.program[i] == st1.code[i] by {
            assert(code[i] == st1.code[i]);
        }
    }
    lemma_constant_expression_is_computed(st, e, m);
    let m1 = m.run(n);
    assert(m1.program[m1.pc] == code[n as int]);
    lemma_statement_ends(m1, r, value_of(e)->0, (budget - n) as nat);
    m.lemma_run_splits(n, (budget - n) as nat);
}

} // verus!
