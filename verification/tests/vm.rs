use astra::memory::Memory;
use astra::op::{Bytecode, Instruction, Opcode};
use astra::vm::{compute, AstraMachine, Fault, Status};

fn machine_with(instructions: Vec<Instruction>) -> AstraMachine {
    let mut machine = AstraMachine::new();
    assert!(machine.load(Bytecode { instructions, data: vec![] }));
    machine
}

fn ins(op: Opcode, a: u16, b: u16, c: u16) -> Instruction {
    Instruction::new(op, a, b, c)
}

#[test]
fn addition_wraps_at_sixteen_bits() {
    let mut machine = machine_with(vec![
        ins(Opcode::LoadImm, 0, 60000, 0),
        ins(Opcode::LoadImm, 1, 10000, 0),
        ins(Opcode::Add, 2, 0, 1),
    ]);
    assert_eq!(machine.step(), Status::Running);
    assert_eq!(machine.step(), Status::Running);
    assert_eq!(machine.step(), Status::Running);
    assert_eq!(machine.register(2), Some(4464));
    assert_eq!(machine.register(0), Some(60000));
    assert_eq!(machine.register(1), Some(10000));
    assert_eq!(machine.step(), Status::Halted);
}

#[test]
fn subtraction_multiplication_and_negation_wrap() {
    assert_eq!(compute(Opcode::Add, 65535, 1), Some(0));
    assert_eq!(compute(Opcode::Sub, 0, 1), Some(65535));
    assert_eq!(compute(Opcode::Sub, 5, 3), Some(2));
    assert_eq!(compute(Opcode::Mul, 300, 300), Some(24464));
    assert_eq!(compute(Opcode::Mul, 65535, 65535), Some(1));
    let mut machine = machine_with(vec![
        ins(Opcode::LoadImm, 1, 1, 0),
        ins(Opcode::Neg, 2, 1, 0),
        ins(Opcode::Neg, 3, 0, 0),
    ]);
    assert_eq!(machine.run(10), Status::Halted);
    assert_eq!(machine.register(2), Some(65535));
    assert_eq!(machine.register(3), Some(0));
}

#[test]
fn division_and_remainder() {
    assert_eq!(compute(Opcode::Div, 7, 2), Some(3));
    assert_eq!(compute(Opcode::Rem, 7, 2), Some(1));
    assert_eq!(compute(Opcode::Div, 7, 0), None);
    assert_eq!(compute(Opcode::Rem, 7, 0), None);
    let mut machine = machine_with(vec![
        ins(Opcode::LoadImm, 1, 7, 0),
        ins(Opcode::Div, 2, 1, 0),
        ins(Opcode::LoadImm, 3, 9, 0),
    ]);
    assert_eq!(machine.run(10), Status::Faulted(Fault::DivisionByZero));
    assert_eq!(machine.register(2), Some(0));
    assert_eq!(machine.register(3), Some(0));
    assert_eq!(machine.program_counter(), 1);
}

#[test]
fn comparisons_give_one_or_zero() {
    assert_eq!(compute(Opcode::Equal, 3, 3), Some(1));
    assert_eq!(compute(Opcode::Equal, 3, 4), Some(0));
    assert_eq!(compute(Opcode::NotEqual, 3, 4), Some(1));
    assert_eq!(compute(Opcode::NotEqual, 3, 3), Some(0));
    assert_eq!(compute(Opcode::Less, 3, 4), Some(1));
    assert_eq!(compute(Opcode::Less, 4, 4), Some(0));
    assert_eq!(compute(Opcode::Greater, 5, 4), Some(1));
    assert_eq!(compute(Opcode::Greater, 4, 4), Some(0));
    assert_eq!(compute(Opcode::LessEqual, 4, 4), Some(1));
    assert_eq!(compute(Opcode::LessEqual, 5, 4), Some(0));
    assert_eq!(compute(Opcode::GreaterEqual, 4, 4), Some(1));
    assert_eq!(compute(Opcode::GreaterEqual, 3, 4), Some(0));
    assert_eq!(compute(Opcode::Less, 65535, 0), Some(0));
    assert_eq!(compute(Opcode::Jump, 1, 1), None);
}

#[test]
fn logical_not() {
    let mut machine = machine_with(vec![
        ins(Opcode::LoadImm, 1, 5, 0),
        ins(Opcode::Not, 2, 1, 0),
        ins(Opcode::Not, 3, 2, 0),
    ]);
    assert_eq!(machine.run(10), Status::Halted);
    assert_eq!(machine.register(2), Some(0));
    assert_eq!(machine.register(3), Some(1));
}

#[test]
fn a_load_beyond_the_capacity_faults_and_reads_nothing() {
    let mut machine = AstraMachine::with_capacity(4, 16, 4);
    let program = Bytecode {
        instructions: vec![
            ins(Opcode::LoadImm, 1, 77, 0),
            ins(Opcode::LoadImm, 2, 16, 0),
            ins(Opcode::Load, 1, 2, 0),
            ins(Opcode::LoadImm, 3, 1, 0),
        ],
        data: vec![1, 2, 3],
    };
    assert!(machine.load(program));
    assert_eq!(machine.run(100), Status::Faulted(Fault::MemoryOutOfBounds));
    assert_eq!(machine.register(1), Some(77));
    assert_eq!(machine.register(3), Some(0));
    assert_eq!(machine.program_counter(), 2);
    assert_eq!(machine.step(), Status::Faulted(Fault::MemoryOutOfBounds));
    assert_eq!(machine.program_counter(), 2);
}

#[test]
fn a_store_beyond_the_capacity_faults_and_writes_nothing() {
    let mut machine = AstraMachine::with_capacity(4, 16, 4);
    let program = Bytecode {
        instructions: vec![
            ins(Opcode::LoadImm, 1, 255, 0),
            ins(Opcode::LoadImm, 2, 10, 0),
            ins(Opcode::Store, 1, 2, 6),
        ],
        data: vec![],
    };
    assert!(machine.load(program));
    assert_eq!(machine.run(100), Status::Faulted(Fault::MemoryOutOfBounds));
    for offset in 0..16 {
        assert_eq!(machine.byte(offset), Some(0));
    }
    assert_eq!(machine.byte(16), None);
    assert_eq!(machine.register(1), Some(255));
    assert_eq!(machine.register(2), Some(10));
}

#[test]
fn the_last_byte_is_inside_the_capacity() {
    let mut machine = AstraMachine::with_capacity(4, 16, 4);
    let program = Bytecode {
        instructions: vec![
            ins(Opcode::LoadImm, 1, 0x1234, 0),
            ins(Opcode::LoadImm, 2, 10, 0),
            ins(Opcode::Store, 1, 2, 5),
            ins(Opcode::Load, 3, 2, 5),
        ],
        data: vec![],
    };
    assert!(machine.load(program));
    assert_eq!(machine.run(100), Status::Halted);
    assert_eq!(machine.byte(15), Some(0x34));
    assert_eq!(machine.register(3), Some(0x34));
}

#[test]
fn an_address_is_not_wrapped() {
    let mut machine = machine_with(vec![
        ins(Opcode::LoadImm, 1, 65535, 0),
        ins(Opcode::Load, 2, 1, 65535),
    ]);
    assert_eq!(machine.run(10), Status::Faulted(Fault::MemoryOutOfBounds));
}

#[test]
fn a_fresh_machine_is_all_zero() {
    let machine = AstraMachine::new();
    assert_eq!(machine.status(), Status::Running);
    assert_eq!(machine.program_counter(), 0);
    for index in 0..256 {
        assert_eq!(machine.register(index), Some(0));
    }
    assert_eq!(machine.register(256), None);
    assert_eq!(machine.byte(0), Some(0));
    assert_eq!(machine.byte(10 * 1024 - 1), Some(0));
    assert_eq!(machine.byte(10 * 1024), None);
}

#[test]
fn sizes_are_chosen_at_construction() {
    let machine = AstraMachine::with_capacity(3, 5, 1);
    assert_eq!(machine.register(2), Some(0));
    assert_eq!(machine.register(3), None);
    assert_eq!(machine.byte(4), Some(0));
    assert_eq!(machine.byte(5), None);
}

#[test]
fn the_machine_halts_at_the_end_of_the_program() {
    let mut machine = machine_with(vec![]);
    assert_eq!(machine.step(), Status::Halted);
    assert_eq!(machine.step(), Status::Halted);
    let mut machine = machine_with(vec![ins(Opcode::LoadImm, 0, 1, 0)]);
    assert_eq!(machine.step(), Status::Running);
    assert_eq!(machine.program_counter(), 1);
    assert_eq!(machine.step(), Status::Halted);
    assert_eq!(machine.program_counter(), 1);
}

#[test]
fn halt_stops_before_the_rest() {
    let mut machine = machine_with(vec![
        ins(Opcode::LoadImm, 1, 1, 0),
        ins(Opcode::Halt, 0, 0, 0),
        ins(Opcode::LoadImm, 1, 2, 0),
    ]);
    assert_eq!(machine.run(100), Status::Halted);
    assert_eq!(machine.register(1), Some(1));
    assert_eq!(machine.program_counter(), 1);
}

#[test]
fn a_return_at_the_top_level_halts() {
    let mut machine = machine_with(vec![
        ins(Opcode::LoadImm, 5, 42, 0),
        ins(Opcode::Return, 5, 0, 0),
        ins(Opcode::LoadImm, 5, 1, 0),
    ]);
    assert_eq!(machine.run(100), Status::Halted);
    assert_eq!(machine.register(0), Some(42));
    assert_eq!(machine.register(5), Some(42));
}

#[test]
fn an_unknown_opcode_is_a_fault() {
    let mut machine = machine_with(vec![
        ins(Opcode::LoadImm, 1, 1, 0),
        Instruction { opcode: 200, a: 1, b: 2, c: 3 },
    ]);
    assert_eq!(machine.run(100), Status::Faulted(Fault::UnknownOpcode));
    assert_eq!(machine.register(1), Some(1));
    assert_eq!(machine.program_counter(), 1);
    let mut machine = machine_with(vec![Instruction { opcode: 22, a: 0, b: 0, c: 0 }]);
    assert_eq!(machine.step(), Status::Faulted(Fault::UnknownOpcode));
}

#[test]
fn a_missing_register_is_a_fault() {
    let programs = vec![
        vec![ins(Opcode::LoadImm, 4, 1, 0)],
        vec![ins(Opcode::Move, 0, 4, 0)],
        vec![ins(Opcode::Add, 0, 1, 4)],
        vec![ins(Opcode::Neg, 4, 0, 0)],
        vec![ins(Opcode::Not, 0, 4, 0)],
        vec![ins(Opcode::Load, 4, 0, 0)],
        vec![ins(Opcode::Store, 0, 4, 0)],
        vec![ins(Opcode::JumpIfZero, 4, 0, 0)],
        vec![ins(Opcode::Call, 4, 0, 0)],
        vec![ins(Opcode::Return, 4, 0, 0)],
    ];
    for instructions in programs {
        let mut machine = AstraMachine::with_capacity(4, 16, 4);
        assert!(machine.load(Bytecode { instructions, data: vec![] }));
        assert_eq!(machine.step(), Status::Faulted(Fault::InvalidRegister));
        assert_eq!(machine.program_counter(), 0);
    }
}

#[test]
fn jumps_set_the_program_counter() {
    let mut machine = machine_with(vec![
        ins(Opcode::Jump, 2, 0, 0),
        ins(Opcode::LoadImm, 1, 1, 0),
        ins(Opcode::LoadImm, 2, 2, 0),
    ]);
    assert_eq!(machine.step(), Status::Running);
    assert_eq!(machine.program_counter(), 2);
    assert_eq!(machine.run(10), Status::Halted);
    assert_eq!(machine.register(1), Some(0));
    assert_eq!(machine.register(2), Some(2));
}

#[test]
fn a_conditional_jump_is_taken_on_zero_only() {
    let mut machine = machine_with(vec![
        ins(Opcode::JumpIfZero, 1, 3, 0),
        ins(Opcode::LoadImm, 2, 1, 0),
        ins(Opcode::Halt, 0, 0, 0),
        ins(Opcode::LoadImm, 2, 2, 0),
    ]);
    assert_eq!(machine.run(10), Status::Halted);
    assert_eq!(machine.register(2), Some(2));
    let mut machine = machine_with(vec![
        ins(Opcode::LoadImm, 1, 9, 0),
        ins(Opcode::JumpIfZero, 1, 4, 0),
        ins(Opcode::LoadImm, 2, 1, 0),
        ins(Opcode::Halt, 0, 0, 0),
        ins(Opcode::LoadImm, 2, 2, 0),
    ]);
    assert_eq!(machine.run(10), Status::Halted);
    assert_eq!(machine.register(2), Some(1));
}

#[test]
fn a_jump_beyond_the_program_halts() {
    let mut machine = machine_with(vec![ins(Opcode::Jump, 500, 0, 0)]);
    assert_eq!(machine.step(), Status::Running);
    assert_eq!(machine.step(), Status::Halted);
}

#[test]
fn call_and_return() {
    let mut machine = machine_with(vec![
        ins(Opcode::LoadImm, 1, 4, 0),
        ins(Opcode::Call, 1, 0, 0),
        ins(Opcode::Move, 2, 0, 0),
        ins(Opcode::Halt, 0, 0, 0),
        ins(Opcode::LoadImm, 3, 99, 0),
        ins(Opcode::Return, 3, 0, 0),
    ]);
    assert_eq!(machine.step(), Status::Running);
    assert_eq!(machine.step(), Status::Running);
    assert_eq!(machine.program_counter(), 4);
    assert_eq!(machine.step(), Status::Running);
    assert_eq!(machine.step(), Status::Running);
    assert_eq!(machine.program_counter(), 2);
    assert_eq!(machine.run(10), Status::Halted);
    assert_eq!(machine.register(2), Some(99));
}

#[test]
fn endless_recursion_overflows_the_call_stack() {
    let mut machine = AstraMachine::with_capacity(4, 16, 3);
    let program = Bytecode { instructions: vec![ins(Opcode::Call, 0, 0, 0)], data: vec![] };
    assert!(machine.load(program));
    assert_eq!(machine.step(), Status::Running);
    assert_eq!(machine.step(), Status::Running);
    assert_eq!(machine.step(), Status::Running);
    assert_eq!(machine.step(), Status::Faulted(Fault::CallStackOverflow));
}

#[test]
fn the_budget_bounds_a_loop() {
    let mut machine = machine_with(vec![ins(Opcode::Jump, 0, 0, 0)]);
    assert_eq!(machine.run(1000), Status::Running);
    assert_eq!(machine.run(0), Status::Running);
    assert_eq!(machine.program_counter(), 0);
}

#[test]
fn the_budget_counts_steps() {
    let mut machine = machine_with(vec![
        ins(Opcode::LoadImm, 1, 1, 0),
        ins(Opcode::LoadImm, 2, 2, 0),
        ins(Opcode::LoadImm, 3, 3, 0),
    ]);
    assert_eq!(machine.run(2), Status::Running);
    assert_eq!(machine.register(2), Some(2));
    assert_eq!(machine.register(3), Some(0));
    assert_eq!(machine.run(1), Status::Running);
    assert_eq!(machine.register(3), Some(3));
    assert_eq!(machine.run(1), Status::Halted);
}

#[test]
fn a_stopped_machine_stays_as_it_is() {
    let mut machine = machine_with(vec![ins(Opcode::LoadImm, 9, 1, 0), ins(Opcode::Halt, 0, 0, 0)]);
    assert_eq!(machine.run(10), Status::Halted);
    let counter = machine.program_counter();
    assert_eq!(machine.run(10), Status::Halted);
    assert_eq!(machine.step(), Status::Halted);
    assert_eq!(machine.program_counter(), counter);
    assert_eq!(machine.register(9), Some(1));
}

#[test]
fn loading_puts_the_data_at_the_start_of_memory() {
    let mut machine = AstraMachine::with_capacity(2, 4, 1);
    assert!(machine.load(Bytecode { instructions: vec![], data: vec![7, 8, 9] }));
    assert_eq!(machine.byte(0), Some(7));
    assert_eq!(machine.byte(1), Some(8));
    assert_eq!(machine.byte(2), Some(9));
    assert_eq!(machine.byte(3), Some(0));
    assert!(machine.load(Bytecode { instructions: vec![], data: vec![1, 2, 3, 4] }));
    assert_eq!(machine.byte(3), Some(4));
}

#[test]
fn data_larger_than_the_memory_is_refused() {
    let mut machine = AstraMachine::with_capacity(2, 4, 1);
    assert!(machine.load(Bytecode { instructions: vec![], data: vec![7, 8] }));
    assert!(!machine.load(Bytecode {
        instructions: vec![ins(Opcode::Halt, 0, 0, 0)],
        data: vec![1, 2, 3, 4, 5],
    }));
    assert_eq!(machine.byte(0), Some(7));
    assert_eq!(machine.byte(1), Some(8));
    assert_eq!(machine.step(), Status::Halted);
    assert_eq!(machine.program_counter(), 0);
}

#[test]
fn loading_restarts_the_machine() {
    let mut machine = machine_with(vec![ins(Opcode::LoadImm, 1, 5, 0), ins(Opcode::Halt, 0, 0, 0)]);
    assert_eq!(machine.run(10), Status::Halted);
    let program = Bytecode { instructions: vec![ins(Opcode::Move, 2, 1, 0)], data: vec![] };
    assert!(machine.load(program));
    assert_eq!(machine.status(), Status::Running);
    assert_eq!(machine.program_counter(), 0);
    assert_eq!(machine.run(10), Status::Halted);
    assert_eq!(machine.register(2), Some(5));
}

#[test]
fn every_opcode_round_trips() {
    let all = vec![
        Opcode::Halt,
        Opcode::LoadImm,
        Opcode::Move,
        Opcode::Add,
        Opcode::Sub,
        Opcode::Mul,
        Opcode::Div,
        Opcode::Rem,
        Opcode::Neg,
        Opcode::Not,
        Opcode::Equal,
        Opcode::NotEqual,
        Opcode::Less,
        Opcode::Greater,
        Opcode::LessEqual,
        Opcode::GreaterEqual,
        Opcode::Load,
        Opcode::Store,
        Opcode::Jump,
        Opcode::JumpIfZero,
        Opcode::Call,
        Opcode::Return,
    ];
    for (index, op) in all.iter().enumerate() {
        assert_eq!(op.encode() as usize, index);
        assert_eq!(Opcode::decode(op.encode()), Some(*op));
    }
    for byte in 22..=255u8 {
        assert_eq!(Opcode::decode(byte), None);
    }
}

#[test]
fn memory_starts_as_zero_and_keeps_what_is_written() {
    let mut memory = Memory::new(8);
    assert_eq!(memory.capacity(), 8);
    for offset in 0..8 {
        assert_eq!(memory.read(offset), Some(0));
    }
    assert_eq!(memory.read(8), None);
    assert!(memory.write(7, 200));
    assert_eq!(memory.read(7), Some(200));
    assert_eq!(memory.read(6), Some(0));
    assert!(!memory.write(8, 1));
    assert!(!memory.write(usize::MAX, 1));
    assert_eq!(memory.read(7), Some(200));
}

#[test]
fn memory_of_no_bytes() {
    let mut memory = Memory::new(0);
    assert_eq!(memory.capacity(), 0);
    assert_eq!(memory.read(0), None);
    assert!(!memory.write(0, 1));
    assert!(memory.fill(&vec![]));
    assert!(!memory.fill(&vec![1]));
}

#[test]
fn fill_overwrites_the_start_only() {
    let mut memory = Memory::new(4);
    assert!(memory.write(3, 9));
    assert!(memory.write(0, 9));
    assert!(memory.fill(&vec![1, 2]));
    assert_eq!(memory.read(0), Some(1));
    assert_eq!(memory.read(1), Some(2));
    assert_eq!(memory.read(2), Some(0));
    assert_eq!(memory.read(3), Some(9));
    assert!(!memory.fill(&vec![5, 5, 5, 5, 5]));
    assert_eq!(memory.read(0), Some(1));
}
