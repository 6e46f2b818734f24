//! The register machine: a register file of 16-bit cells, a flat memory,
//! a program counter and a stack of return addresses.
//!
//! The mathematical model comes first: the state of a machine as a plain
//! value, and one step as a function from state to state. The machine
//! itself follows and is proved to take exactly these steps.

use crate::memory::Memory;
use crate::op::{Bytecode, Instruction, Opcode};
use vstd::prelude::*;

verus! {

/// Why a machine stopped for good.
#[derive(Clone, Copy, Debug, PartialEq, Eq, Structural)]
pub enum Fault {
    /// A load or store addressed an offset at or beyond the capacity.
    MemoryOutOfBounds,
    /// The byte of the operation stands for none.
    UnknownOpcode,
    /// An operand names a register that the machine does not have.
    InvalidRegister,
    /// A division or remainder by zero.
    DivisionByZero,
    /// A call when the stack of return addresses was full.
    CallStackOverflow,
}

/// Whether a machine runs, has finished, or has failed.
#[derive(Clone, Copy, Debug, PartialEq, Eq, Structural)]
pub enum Status {
    Running,
    Halted,
    Faulted(Fault),
}

/// The number of registers of a machine made without further ado.
pub const REGISTERS: u16 = 256;

/// The bytes of memory of a machine made without further ado.
pub const MEMORY_BYTES: usize = 10 * 1024;

/// The return addresses that a machine made without further ado has room
/// for.
pub const CALL_DEPTH: usize = 64;

/// The value of `n` in a 16-bit cell: arithmetic wraps silently.
pub open spec fn wrap(n: int) -> u16 {
    (n % 0x1_0000) as u16
}

/// One for true, zero for false.
pub open spec fn flag(b: bool) -> u16 {
    if b {
        1
    } else {
        0
    }
}

/// The mathematical value of a machine.
pub struct MachineView {
    pub registers: Seq<u16>,
    pub memory: Seq<u8>,
    pub program: Seq<Instruction>,
    pub pc: int,
    pub calls: Seq<int>,
    pub call_limit: int,
    pub status: Status,
}

impl MachineView {
    /// Whether the machine has the register.
    pub open spec fn has(self, r: u16) -> bool {
        r < self.registers.len()
    }

    /// What a register holds.
    pub open spec fn reg(self, r: u16) -> u16
        recommends
            self.has(r),
    {
        self.registers[r as int]
    }

    /// The machine stopped by a fault. Nothing else changes.
    pub open spec fn fault(self, fault: Fault) -> MachineView {
        MachineView { status: Status::Faulted(fault), ..self }
    }

    /// The machine stopped in good order. Nothing else changes.
    pub open spec fn halt(self) -> MachineView {
        MachineView { status: Status::Halted, ..self }
    }

    /// The machine after writing a register and moving to the next
    /// instruction.
    pub open spec fn put(self, dst: u16, value: u16) -> MachineView {
        MachineView {
            registers: self.registers.update(dst as int, value),
            pc: self.pc + 1,
            ..self
        }
    }

    /// The machine continuing at another instruction.
    pub open spec fn jump(self, target: int) -> MachineView {
        MachineView { pc: target, ..self }
    }

    /// The address of a load or store: a base register plus an offset.
    pub open spec fn address(self, ins: Instruction) -> int {
        self.reg(ins.b) + ins.c
    }

    /// What an operation of two operands computes; `None` for a division
    /// or remainder by zero.
    pub open spec fn compute(op: Opcode, x: u16, y: u16) -> Option<u16> {
        match op {
            Opcode::Add => Some(wrap(x + y)),
            Opcode::Sub => Some(wrap(x - y)),
            Opcode::Mul => Some(wrap(x * y)),
            Opcode::Div => if y == 0 {
                None
            } else {
                Some((x / y) as u16)
            },
            Opcode::Rem => if y == 0 {
                None
            } else {
                Some((x % y) as u16)
            },
            Opcode::Equal => Some(flag(x == y)),
            Opcode::NotEqual => Some(flag(x != y)),
            Opcode::Less => Some(flag(x < y)),
            Opcode::Greater => Some(flag(x > y)),
            Opcode::LessEqual => Some(flag(x <= y)),
            Opcode::GreaterEqual => Some(flag(x >= y)),
            _ => None,
        }
    }

    /// The effect of one instruction on a running machine.
    pub open spec fn execute(self, op: Opcode, ins: Instruction) -> MachineView {
        match op {
            Opcode::Halt => self.halt(),
            Opcode::LoadImm => if self.has(ins.a) {
                self.put(ins.a, ins.b)
            } else {
                self.fault(Fault::InvalidRegister)
            },
            Opcode::Move => if self.has(ins.a) && self.has(ins.b) {
                self.put(ins.a, self.reg(ins.b))
            } else {
                self.fault(Fault::InvalidRegister)
            },
            Opcode::Neg => if self.has(ins.a) && self.has(ins.b) {
                self.put(ins.a, wrap(-self.reg(ins.b)))
            } else {
                self.fault(Fault::InvalidRegister)
            },
            Opcode::Not => if self.has(ins.a) && self.has(ins.b) {
                self.put(ins.a, flag(self.reg(ins.b) == 0))
            } else {
                self.fault(Fault::InvalidRegister)
            },
            Opcode::Load => if !(self.has(ins.a) && self.has(ins.b)) {
                self.fault(Fault::InvalidRegister)
            } else if self.address(ins) < self.memory.len() {
                self.put(ins.a, self.memory[self.address(ins)] as u16)
            } else {
                self.fault(Fault::MemoryOutOfBounds)
            },
            Opcode::Store => if !(self.has(ins.a) && self.has(ins.b)) {
                self.fault(Fault::InvalidRegister)
            } else if self.address(ins) < self.memory.len() {
                MachineView {
                    memory: self.memory.update(self.address(ins), (self.reg(ins.a) % 0x100) as u8),
                    pc: self.pc + 1,
                    ..self
                }
            } else {
                self.fault(Fault::MemoryOutOfBounds)
            },
            Opcode::Jump => self.jump(ins.a as int),
            Opcode::JumpIfZero => if !self.has(ins.a) {
                self.fault(Fault::InvalidRegister)
            } else if self.reg(ins.a) == 0 {
                self.jump(ins.b as int)
            } else {
                self.jump(self.pc + 1)
            },
            Opcode::Call => if !self.has(ins.a) {
                self.fault(Fault::InvalidRegister)
            } else if self.calls.len() < self.call_limit {
                MachineView {
                    calls: self.calls.push(self.pc + 1),
                    pc: self.reg(ins.a) as int,
                    ..self
                }
            } else {
                self.fault(Fault::CallStackOverflow)
            },
            Opcode::Return => if !(self.has(ins.a) && self.has(0)) {
                self.fault(Fault::InvalidRegister)
            } else if self.calls.len() == 0 {
                MachineView {
                    registers: self.registers.update(0, self.reg(ins.a)),
                    status: Status::Halted,
                    ..self
                }
            } else {
                MachineView {
                    registers: self.registers.update(0, self.reg(ins.a)),
                    pc: self.calls.last(),
                    calls: self.calls.drop_last(),
                    ..self
                }
            },
            _ => if !(self.has(ins.a) && self.has(ins.b) && self.has(ins.c)) {
                self.fault(Fault::InvalidRegister)
            } else {
                match Self::compute(op, self.reg(ins.b), self.reg(ins.c)) {
                    Some(value) => self.put(ins.a, value),
                    None => self.fault(Fault::DivisionByZero),
                }
            },
        }
    }

    /// One fetch-decode-execute cycle. A machine that has stopped stays
    /// as it is; a running one halts at the end of its program, faults on
    /// a byte that stands for no operation, and otherwise executes the
    /// instruction at the program counter.
    pub open spec fn step(self) -> MachineView {
        if self.status != Status::Running {
            self
        } else if !(0 <= self.pc < self.program.len()) {
            self.halt()
        } else {
            match Opcode::of(self.program[self.pc].opcode) {
                Some(op) => self.execute(op, self.program[self.pc]),
                None => self.fault(Fault::UnknownOpcode),
            }
        }
    }

    /// The machine after at most `budget` steps, fewer if it stops before.
    pub open spec fn run(self, budget: nat) -> MachineView
        decreases budget,
    {
        if budget == 0 || self.status != Status::Running {
            self
        } else {
            self.step().run((budget - 1) as nat)
        }
    }

    /// A load or store whose address is at or beyond the capacity stops
    /// the machine with a fault and reads and writes nothing: registers,
    /// memory, program counter and return addresses stay as they were.
    pub proof fn lemma_out_of_bounds_faults(self)
        requires
            self.status == Status::Running,
            0 <= self.pc < self.program.len(),
            Opcode::of(self.program[self.pc].opcode) == Some(Opcode::Load) || Opcode::of(
                self.program[self.pc].opcode,
            ) == Some(Opcode::Store),
            self.has(self.program[self.pc].a),
            self.has(self.program[self.pc].b),
            self.address(self.program[self.pc]) >= self.memory.len(),
        ensures
            self.step() == self.fault(Fault::MemoryOutOfBounds),
            self.step().registers == self.registers,
            self.step().memory == self.memory,
            self.step().status == Status::Faulted(Fault::MemoryOutOfBounds),
    {
    }

    /// Running changes what the registers and the memory hold, never how
    /// many there are, nor the program.
    pub proof fn lemma_run_keeps_shape(self, budget: nat)
        ensures
            self.step().registers.len() == self.registers.len(),
            self.step().memory.len() == self.memory.len(),
            self.step().program == self.program,
            self.step().call_limit == self.call_limit,
            self.run(budget).registers.len() == self.registers.len(),
            self.run(budget).memory.len() == self.memory.len(),
            self.run(budget).program == self.program,
            self.run(budget).call_limit == self.call_limit,
        decreases budget,
    {
        if budget > 0 && self.status == Status::Running {
            self.step().lemma_run_keeps_shape((budget - 1) as nat);
        }
    }

    /// Running for two budgets in a row is running for their sum.
    pub proof fn lemma_run_splits(self, first: nat, second: nat)
        ensures
            self.run(first + second) == self.run(first).run(second),
        decreases first,
    {
        if first > 0 && self.status == Status::Running {
            self.step().lemma_run_splits((first - 1) as nat, second);
        }
    }

    /// Whether every instruction of the program fits the machine.
    pub open spec fn program_fits(self) -> bool {
        forall|i: int|
            0 <= i < self.program.len() ==> (#[trigger] self.program[i]).fits(
                self.registers.len() as int,
            )
    }

    /// A program whose instructions all fit the machine never stops it
    /// for an unknown operation or a missing register.
    pub proof fn lemma_fitting_program_runs_clean(self, budget: nat)
        requires
            self.program_fits(),
            self.status != Status::Faulted(Fault::UnknownOpcode),
            self.status != Status::Faulted(Fault::InvalidRegister),
        ensures
            self.step().status != Status::Faulted(Fault::UnknownOpcode),
            self.step().status != Status::Faulted(Fault::InvalidRegister),
            self.run(budget).status != Status::Faulted(Fault::UnknownOpcode),
            self.run(budget).status != Status::Faulted(Fault::InvalidRegister),
        decreases budget,
    {
        if self.status == Status::Running && 0 <= self.pc < self.program.len() {
            assert(self.program[self.pc].fits(self.registers.len() as int));
        }
        if budget > 0 && self.status == Status::Running {
            self.lemma_run_keeps_shape(1);
            self.step().lemma_fitting_program_runs_clean((budget - 1) as nat);
        }
    }

    /// A machine that has stopped stays stopped, whatever the budget.
    pub proof fn lemma_stopped_stays(self, budget: nat)
        requires
            self.status != Status::Running,
        ensures
            self.step() == self,
            self.run(budget) == self,
    {
    }

    /// Addition wraps: whatever two registers hold, adding them gives
    /// their sum modulo 65536 and the machine keeps running.
    pub proof fn lemma_add_wraps(self)
        requires
            self.status == Status::Running,
            0 <= self.pc < self.program.len(),
            Opcode::of(self.program[self.pc].opcode) == Some(Opcode::Add),
            self.has(self.program[self.pc].a),
            self.has(self.program[self.pc].b),
            self.has(self.program[self.pc].c),
        ensures
            self.step().status == Status::Running,
            self.step().reg(self.program[self.pc].a) == (self.reg(self.program[self.pc].b)
                + self.reg(self.program[self.pc].c)) % 65536,
    {
    }
}

/// The return addresses as mathematical integers.
pub open spec fn addresses(calls: Seq<usize>) -> Seq<int> {
    Seq::new(calls.len(), |i: int| calls[i] as int)
}

/// A machine with its program.
pub struct AstraMachine {
    registers: Vec<u16>,
    memory: Memory,
    program: Vec<Instruction>,
    pc: usize,
    calls: Vec<usize>,
    call_limit: usize,
    status: Status,
}

impl View for AstraMachine {
    type V = MachineView;

    closed spec fn view(&self) -> MachineView {
        MachineView {
            registers: self.registers@,
            memory: self.memory@,
            program: self.program@,
            pc: self.pc as int,
            calls: addresses(self.calls@),
            call_limit: self.call_limit as int,
            status: self.status,
        }
    }
}

impl AstraMachine {
    /// The parts of the machine are consistent.
    pub closed spec fn wf(&self) -> bool {
        self.memory.wf()
    }

    /// A machine of the default sizes, all zero, with an empty program.
    pub fn new() -> (m: AstraMachine)
        ensures
            m.wf(),
            m@ == MachineView::fresh(REGISTERS as nat, MEMORY_BYTES as nat, CALL_DEPTH as nat),
    {
        Self::with_capacity(REGISTERS as usize, MEMORY_BYTES, CALL_DEPTH)
    }

    /// A machine with the given number of registers, bytes of memory and
    /// room for return addresses, all zero, with an empty program.
    pub fn with_capacity(registers: usize, memory: usize, call_limit: usize) -> (m: AstraMachine)
        ensures
            m.wf(),
            m@ == MachineView::fresh(registers as nat, memory as nat, call_limit as nat),
    {
        let m = AstraMachine {
            registers: vec![0; registers],
            memory: Memory::new(memory),
            program: Vec::new(),
            pc: 0,
            calls: Vec::new(),
            call_limit,
            status: Status::Running,
        };
        assert(m@.calls =~= Seq::empty());
        assert(m@.registers =~= Seq::new(registers as nat, |i: int| 0u16));
        assert(m@.memory =~= Seq::new(memory as nat, |i: int| 0u8));
        assert(m@.program =~= Seq::empty());
        m
    }

    /// Loads a program: its instructions replace the program, its data
    /// goes to the start of the memory, and the machine is set to run from
    /// the first instruction with no return address. Says whether it did:
    /// data longer than the memory is refused and nothing changes.
    pub fn load(&mut self, program: Bytecode) -> (done: bool)
        requires
            old(self).wf(),
        ensures
            final(self).wf(),
            done == (program.data@.len() <= old(self)@.memory.len()),
            final(self)@ == if done {
                old(self)@.loaded(program.instructions@, program.data@)
            } else {
                old(self)@
            },
    {
        if !self.memory.fill(&program.data) {
            return false;
        }
        self.program = program.instructions;
        self.pc = 0;
        self.calls = Vec::new();
        self.status = Status::Running;
        assert(self@.calls =~= Seq::empty());
        true
    }

    /// Whether the machine runs, has finished, or has failed.
    pub fn status(&self) -> (s: Status)
        ensures
            s == self@.status,
    {
        self.status
    }

    /// The index of the instruction that is executed next.
    pub fn program_counter(&self) -> (pc: usize)
        ensures
            pc == self@.pc,
    {
        self.pc
    }

    /// What a register holds, or `None` if the machine has no such
    /// register.
    pub fn register(&self, index: usize) -> (value: Option<u16>)
        ensures
            value == if index < self@.registers.len() {
                Some(self@.registers[index as int])
            } else {
                None
            },
    {
        if index < self.registers.len() {
            Some(self.registers[index])
        } else {
            None
        }
    }

    /// The byte of memory at an offset, or `None` for an offset at or
    /// beyond the capacity.
    pub fn byte(&self, offset: usize) -> (value: Option<u8>)
        requires
            self.wf(),
        ensures
            value == if offset < self@.memory.len() {
                Some(self@.memory[offset as int])
            } else {
                None
            },
    {
        self.memory.read(offset)
    }

    /// Performs one fetch-decode-execute cycle and reports the status
    /// after it.
    pub fn step(&mut self) -> (s: Status)
        requires
            old(self).wf(),
        ensures
            final(self).wf(),
            final(self)@ == old(self)@.step(),
            s == final(self)@.status,
    {
        if self.status != Status::Running {
            return self.status;
        }
        if self.pc >= self.program.len() {
            self.status = Status::Halted;
            return self.status;
        }
        let ins = self.program[self.pc];
        match Opcode::decode(ins.opcode) {
            None => self.fail(Fault::UnknownOpcode),
            Some(op) => self.execute(op, ins),
        }
        self.status
    }

    /// Steps until the machine stops or the budget of steps is spent, and
    /// reports the status then.
    pub fn run(&mut self, budget: usize) -> (s: Status)
        requires
            old(self).wf(),
        ensures
            final(self).wf(),
            final(self)@ == old(self)@.run(budget as nat),
            s == final(self)@.status,
    {
        let mut left = budget;
        while left > 0 && self.status == Status::Running
            invariant
                self.wf(),
                self@.run(left as nat) == old(self)@.run(budget as nat),
            decreases left,
        {
            self.step();
            left -= 1;
        }
        self.status
    }

    /// Stops the machine with a fault.
    fn fail(&mut self, fault: Fault)
        requires
            old(self).wf(),
        ensures
            final(self).wf(),
            final(self)@ == old(self)@.fault(fault),
    {
        self.status = Status::Faulted(fault);
    }

    /// Writes a register and moves to the next instruction.
    fn put(&mut self, dst: u16, value: u16)
        requires
            old(self).wf(),
            old(self)@.has(dst),
            old(self).pc < old(self).program.len(),
        ensures
            final(self).wf(),
            final(self)@ == old(self)@.put(dst, value),
    {
        self.registers.set(dst as usize, value);
        self.pc += 1;
    }

    /// Whether the machine has the register.
    fn has(&self, r: u16) -> (b: bool)
        ensures
            b == self@.has(r),
    {
        (r as usize) < self.registers.len()
    }

    /// Executes one decoded instruction.
    fn execute(&mut self, op: Opcode, ins: Instruction)
        requires
            old(self).wf(),
            old(self).status == Status::Running,
            old(self).pc < old(self).program.len(),
        ensures
            final(self).wf(),
            final(self)@ == old(self)@.execute(op, ins),
    {
        match op {
            Opcode::Halt => {
                self.status = Status::Halted;
            },
            Opcode::LoadImm => {
                if self.has(ins.a) {
                    self.put(ins.a, ins.b);
                } else {
                    self.fail(Fault::InvalidRegister);
                }
            },
            Opcode::Move => {
                if self.has(ins.a) && self.has(ins.b) {
                    let value = self.registers[ins.b as usize];
                    self.put(ins.a, value);
                } else {
                    self.fail(Fault::InvalidRegister);
                }
            },
            Opcode::Neg => {
                if self.has(ins.a) && self.has(ins.b) {
                    let value = 0u16.wrapping_sub(self.registers[ins.b as usize]);
                    self.put(ins.a, value);
                } else {
                    self.fail(Fault::InvalidRegister);
                }
            },
            Opcode::Not => {
                if self.has(ins.a) && self.has(ins.b) {
                    let value: u16 = if self.registers[ins.b as usize] == 0 {
                        1
                    } else {
                        0
                    };
                    self.put(ins.a, value);
                } else {
                    self.fail(Fault::InvalidRegister);
                }
            },
            Opcode::Load => self.load_byte(ins),
            Opcode::Store => self.store_byte(ins),
            Opcode::Jump => {
                self.pc = ins.a as usize;
            },
            Opcode::JumpIfZero => {
                if !self.has(ins.a) {
                    self.fail(Fault::InvalidRegister);
                } else if self.registers[ins.a as usize] == 0 {
                    self.pc = ins.b as usize;
                } else {
                    self.pc += 1;
                }
            },
            Opcode::Call => self.call(ins),
            Opcode::Return => self.ret(ins),
            _ => {
                if !(self.has(ins.a) && self.has(ins.b) && self.has(ins.c)) {
                    self.fail(Fault::InvalidRegister);
                } else {
                    let x = self.registers[ins.b as usize];
                    let y = self.registers[ins.c as usize];
                    match compute(op, x, y) {
                        Some(value) => self.put(ins.a, value),
                        None => self.fail(Fault::DivisionByZero),
                    }
                }
            },
        }
    }

    /// Loads a byte of memory into a register.
    fn load_byte(&mut self, ins: Instruction)
        requires
            old(self).wf(),
            old(self).pc < old(self).program.len(),
        ensures
            final(self).wf(),
            final(self)@ == old(self)@.execute(Opcode::Load, ins),
    {
        if !(self.has(ins.a) && self.has(ins.b)) {
            self.fail(Fault::InvalidRegister);
            return ;
        }
        let address = self.registers[ins.b as usize] as usize + ins.c as usize;
        match self.memory.read(address) {
            Some(byte) => self.put(ins.a, byte as u16),
            None => self.fail(Fault::MemoryOutOfBounds),
        }
    }

    /// Stores the low byte of a register into memory.
    fn store_byte(&mut self, ins: Instruction)
        requires
            old(self).wf(),
            old(self).pc < old(self).program.len(),
        ensures
            final(self).wf(),
            final(self)@ == old(self)@.execute(Opcode::Store, ins),
    {
        if !(self.has(ins.a) && self.has(ins.b)) {
            self.fail(Fault::InvalidRegister);
            return ;
        }
        let address = self.registers[ins.b as usize] as usize + ins.c as usize;
        let byte = (self.registers[ins.a as usize] % 0x100) as u8;
        if self.memory.write(address, byte) {
            self.pc += 1;
        } else {
            self.fail(Fault::MemoryOutOfBounds);
        }
    }

    /// Remembers the next instruction and continues where a register says.
    fn call(&mut self, ins: Instruction)
        requires
            old(self).wf(),
            old(self).pc < old(self).program.len(),
        ensures
            final(self).wf(),
            final(self)@ == old(self)@.execute(Opcode::Call, ins),
    {
        if !self.has(ins.a) {
            self.fail(Fault::InvalidRegister);
        } else if self.calls.len() < self.call_limit {
            self.calls.push(self.pc + 1);
            self.pc = self.registers[ins.a as usize] as usize;
            assert(self@.calls =~= old(self)@.calls.push(old(self).pc + 1));
        } else {
            self.fail(Fault::CallStackOverflow);
        }
    }

    /// Hands a value back in register zero and continues behind the
    /// latest call, or stops if there is none.
    fn ret(&mut self, ins: Instruction)
        requires
            old(self).wf(),
            old(self).pc < old(self).program.len(),
        ensures
            final(self).wf(),
            final(self)@ == old(self)@.execute(Opcode::Return, ins),
    {
        if !(self.has(ins.a) && self.has(0)) {
            self.fail(Fault::InvalidRegister);
            return ;
        }
        let value = self.registers[ins.a as usize];
        self.registers.set(0, value);
        match self.calls.pop() {
            Some(target) => {
                self.pc = target;
                assert(self@.calls =~= old(self)@.calls.drop_last());
            },
            None => {
                self.status = Status::Halted;
                assert(self@.calls =~= old(self)@.calls);
            },
        }
    }
}

impl MachineView {
    /// A machine as it is made: every register and byte zero, an empty
    /// program, no return address, ready to run.
    pub open spec fn fresh(registers: nat, memory: nat, call_limit: nat) -> MachineView {
        MachineView {
            registers: Seq::new(registers, |i: int| 0u16),
            memory: Seq::new(memory, |i: int| 0u8),
            program: Seq::empty(),
            pc: 0,
            calls: Seq::empty(),
            call_limit: call_limit as int,
            status: Status::Running,
        }
    }

    /// The machine after loading a program whose data fits: the data is at
    /// the start of the memory and the machine runs from the first
    /// instruction. The registers keep what they held.
    pub open spec fn loaded(self, instructions: Seq<Instruction>, data: Seq<u8>) -> MachineView {
        MachineView {
            memory: data + self.memory.subrange(data.len() as int, self.memory.len() as int),
            program: instructions,
            pc: 0,
            calls: Seq::empty(),
            status: Status::Running,
            ..self
        }
    }
}

/// Computes an operation of two operands; `None` for a division or
/// remainder by zero, and for an operation that is not of this form.
pub fn compute(op: Opcode, x: u16, y: u16) -> (value: Option<u16>)
    ensures
        value == MachineView::compute(op, x, y),
{
    match op {
        Opcode::Add => Some(x.wrapping_add(y)),
        Opcode::Sub => Some(x.wrapping_sub(y)),
        Opcode::Mul => Some(x.wrapping_mul(y)),
        Opcode::Div => if y == 0 {
            None
        } else {
            Some(x / y)
        },
        Opcode::Rem => if y == 0 {
            None
        } else {
            Some(x % y)
        },
        Opcode::Equal => Some(if x == y { 1 } else { 0 }),
        Opcode::NotEqual => Some(if x != y { 1 } else { 0 }),
        Opcode::Less => Some(if x < y { 1 } else { 0 }),
        Opcode::Greater => Some(if x > y { 1 } else { 0 }),
        Opcode::LessEqual => Some(if x <= y { 1 } else { 0 }),
        Opcode::GreaterEqual => Some(if x >= y { 1 } else { 0 }),
        _ => None,
    }
}

} // verus!
