use evm_from_scratch::evm::opcodes::stack::{jump, jumpdest, jumpi, pc, pop, push_2, push_32};
use evm_from_scratch::evm::utils::{
    dup_n, get_jumpdests, get_opcode_functions, get_opcodes, insert_push_n_functions,
    is_pc_on_jumpdest, log_n, push_n, swap_n,
};
use evm_from_scratch::evm::{dispatch, step, EVM};
use evm_from_scratch::utils::types::{
    EvmError, ExecutionData, NextAction, Opcode, Opcodes, TxData,
};
use evm_from_scratch::word::Word;
use std::collections::HashMap;

fn w(x: u64) -> Word {
    Word::from_u64(x)
}

fn run(code: Vec<u8>) -> (Vec<Word>, bool, Option<EvmError>) {
    let data = ExecutionData { bytecode: &code, tx: &None, block: &None, state: &None };
    let mut evm = EVM::new();
    let result = evm.execute(data);
    (result.stack, result.success, result.error)
}

#[test]
fn push_add_stop_succeeds_with_three() {
    let (stack, success, error) = run(vec![0x60, 0x01, 0x60, 0x02, 0x01, 0x00]);
    assert!(success);
    assert_eq!(error, None);
    assert_eq!(stack, vec![w(3)]);
}

#[test]
fn push_push_invalid_fails_the_run() {
    let (stack, success, error) = run(vec![0x60, 0x00, 0x60, 0x00, 0xfd]);
    assert!(!success);
    assert_eq!(error, None);
    assert_eq!(stack, vec![w(0), w(0)]);
}

#[test]
fn an_opcode_without_a_handler_aborts_the_run() {
    let (stack, success, error) = run(vec![0x60, 0x00, 0x60, 0x00, 0x0c, 0x60, 0x01]);
    assert!(!success);
    assert_eq!(error, Some(EvmError::UnknownOpcode(0x0c)));
    assert_eq!(stack, vec![w(0), w(0)]);
}

#[test]
fn invalid_fails_the_run() {
    let (stack, success, error) = run(vec![0x60, 0x00, 0x60, 0x01, 0xfe, 0x60, 0x02]);
    assert!(!success);
    assert_eq!(error, None);
    assert_eq!(stack, vec![w(1), w(0)]);
}

#[test]
fn the_result_has_the_top_of_the_stack_first() {
    let (stack, success, _) = run(vec![0x60, 0x01, 0x60, 0x02, 0x60, 0x03]);
    assert!(success);
    assert_eq!(stack, vec![w(3), w(2), w(1)]);
}

#[test]
fn the_empty_program_succeeds() {
    let (stack, success, error) = run(vec![]);
    assert!(success);
    assert_eq!(error, None);
    assert!(stack.is_empty());
}

#[test]
fn stop_ends_the_run_before_the_rest() {
    let (stack, success, _) = run(vec![0x60, 0x01, 0x00, 0x60, 0x02]);
    assert!(success);
    assert_eq!(stack, vec![w(1)]);
}

#[test]
fn the_machine_is_reset_after_a_run() {
    let code: Vec<u8> = vec![0x60, 0x01, 0x60, 0x00, 0x52, 0x60, 0x07];
    let data = ExecutionData { bytecode: &code, tx: &None, block: &None, state: &None };
    let mut evm = EVM::new();
    let result = evm.execute(data);
    assert_eq!(result.stack, vec![w(7)]);
    assert_eq!(evm.pc, 0);
    assert!(evm.stack.is_empty());
    assert_eq!(evm.msize, 0);
    assert_eq!(evm.memory, vec![0u8; 256]);
    let again = evm.execute(ExecutionData { bytecode: &code, tx: &None, block: &None, state: &None });
    assert_eq!(again.stack, vec![w(7)]);
    assert!(again.success);
}

#[test]
fn jump_to_a_jump_destination_continues() {
    // push 4, jump, invalid, jumpdest, push 1
    let (stack, success, error) = run(vec![0x60, 0x04, 0x56, 0xfe, 0x5b, 0x60, 0x01]);
    assert!(success);
    assert_eq!(error, None);
    assert_eq!(stack, vec![w(1)]);
}

#[test]
fn jump_to_any_other_offset_fails() {
    // push 3, jump, invalid, jumpdest, push 1
    let (stack, success, error) = run(vec![0x60, 0x03, 0x56, 0xfe, 0x5b, 0x60, 0x01]);
    assert!(!success);
    assert_eq!(error, None);
    assert!(stack.is_empty());
    let (_, success, error) = run(vec![0x60, 0xff, 0x56, 0xfe, 0x5b, 0x60, 0x01]);
    assert!(!success);
    assert_eq!(error, None);

    let code: Vec<u8> = vec![0x5b];
    let data = ExecutionData { bytecode: &code, tx: &None, block: &None, state: &None };
    let mut evm = EVM::new();
    evm.jumpdests = get_jumpdests(&code);
    evm.stack.push(Word::max_value());
    assert_eq!(jump(&mut evm, &data), Ok(NextAction::Exit(1)));
    assert_eq!(evm.pc, 0);
    evm.stack.push(w(1));
    assert_eq!(jump(&mut evm, &data), Ok(NextAction::Exit(1)));
    assert_eq!(evm.pc, 1);
    evm.stack.push(w(0));
    assert_eq!(jump(&mut evm, &data), Ok(NextAction::Continue));
    assert_eq!(evm.pc, 0);
    assert!(evm.stack.is_empty());
    assert_eq!(jump(&mut evm, &data), Err(EvmError::StackUnderflow));
}

#[test]
fn push_data_is_no_jump_destination() {
    // push1 0x5b, jumpdest, jump
    let code: Vec<u8> = vec![0x60, 0x5b, 0x5b, 0x56];
    assert_eq!(get_jumpdests(&code), vec![2]);

    // push 1, jump, where offset 1 holds the marker's value as push data
    let (_, success, error) = run(vec![0x60, 0x01, 0x56, 0x5b]);
    assert!(!success);
    assert_eq!(error, None);
    // push 0x5b, pop, push 7, jump, invalid, jumpdest, push 9
    let (stack, success, _) = run(vec![0x60, 0x5b, 0x50, 0x60, 0x07, 0x56, 0xfe, 0x5b, 0x60, 0x09]);
    assert!(success);
    assert_eq!(stack, vec![w(9)]);
    // the same program, jumping at the push data
    let (_, success, _) = run(vec![0x60, 0x5b, 0x50, 0x60, 0x01, 0x56, 0xfe, 0x5b, 0x60, 0x09]);
    assert!(!success);
}

#[test]
fn the_scan_skips_the_data_of_every_push() {
    assert_eq!(get_jumpdests(&vec![]), Vec::<usize>::new());
    assert_eq!(get_jumpdests(&vec![0x5b, 0x5b, 0x00, 0x5b]), vec![0, 1, 3]);
    assert_eq!(get_jumpdests(&vec![0x61, 0x5b, 0x5b, 0x5b]), vec![3]);
    let mut code: Vec<u8> = vec![0x7f];
    code.extend(vec![0x5b; 32]);
    code.push(0x5b);
    assert_eq!(get_jumpdests(&code), vec![33]);
    assert_eq!(get_jumpdests(&vec![0x5b, 0x7f, 0x5b]), vec![0]);
    assert_eq!(get_jumpdests(&vec![0x5f, 0x5b, 0x80, 0x5b]), vec![1, 3]);
}

#[test]
fn the_program_counter_is_looked_up_among_the_jump_destinations() {
    let mut evm = EVM::new();
    evm.jumpdests = vec![2, 5, 9, 40, 41];
    for target in 0..50usize {
        evm.pc = target;
        assert_eq!(is_pc_on_jumpdest(&evm), [2, 5, 9, 40, 41].contains(&target));
    }
    evm.jumpdests = vec![];
    evm.pc = 0;
    assert!(!is_pc_on_jumpdest(&evm));
}

#[test]
fn jumpi_jumps_only_on_a_condition_that_is_not_zero() {
    // push 0, push 7, jumpi, push 1, stop, jumpdest, push 2
    let (stack, success, _) = run(vec![0x60, 0x00, 0x60, 0x08, 0x57, 0x60, 0x01, 0x00, 0x5b, 0x60, 0x02]);
    assert!(success);
    assert_eq!(stack, vec![w(1)]);
    let (stack, success, _) = run(vec![0x60, 0x01, 0x60, 0x08, 0x57, 0x60, 0x01, 0x00, 0x5b, 0x60, 0x02]);
    assert!(success);
    assert_eq!(stack, vec![w(2)]);
    // a condition of zero skips the validation of the destination
    let (stack, success, _) = run(vec![0x60, 0x00, 0x60, 0x03, 0x57, 0x60, 0x01]);
    assert!(success);
    assert_eq!(stack, vec![w(1)]);
    let (stack, success, error) = run(vec![0x60, 0x01, 0x60, 0x03, 0x57, 0x60, 0x01]);
    assert!(!success);
    assert_eq!(error, None);
    assert!(stack.is_empty());

    let code: Vec<u8> = Vec::new();
    let data = ExecutionData { bytecode: &code, tx: &None, block: &None, state: &None };
    let mut evm = EVM::new();
    evm.stack.push(w(1));
    assert_eq!(jumpi(&mut evm, &data), Err(EvmError::StackUnderflow));
    assert_eq!(evm.stack, vec![w(1)]);
}

#[test]
fn pc_is_the_offset_of_its_own_instruction() {
    let (stack, success, _) = run(vec![0x58, 0x60, 0x00, 0x58]);
    assert!(success);
    assert_eq!(stack, vec![w(3), w(0), w(0)]);

    let code: Vec<u8> = Vec::new();
    let data = ExecutionData { bytecode: &code, tx: &None, block: &None, state: &None };
    let mut evm = EVM::new();
    evm.pc = 10;
    assert_eq!(pc(&mut evm, &data), Ok(NextAction::Continue));
    assert_eq!(evm.stack, vec![w(9)]);
    assert_eq!(jumpdest(&mut evm, &data), Ok(NextAction::Continue));
    assert_eq!(evm.stack, vec![w(9)]);
    assert_eq!(evm.pc, 10);
}

#[test]
fn pop_discards_the_top_and_fails_on_an_empty_stack() {
    let code: Vec<u8> = Vec::new();
    let data = ExecutionData { bytecode: &code, tx: &None, block: &None, state: &None };
    let mut evm = EVM::new();
    assert_eq!(pop(&mut evm, &data), Err(EvmError::StackUnderflow));
    evm.stack.push(w(1));
    evm.stack.push(w(2));
    assert_eq!(pop(&mut evm, &data), Ok(NextAction::Continue));
    assert_eq!(evm.stack, vec![w(1)]);
    let (_, success, error) = run(vec![0x50]);
    assert!(!success);
    assert_eq!(error, Some(EvmError::StackUnderflow));
}

#[test]
fn push_reads_big_endian_and_moves_the_counter() {
    let code: Vec<u8> = vec![0x61, 0x01, 0x02, 0x00];
    let data = ExecutionData { bytecode: &code, tx: &None, block: &None, state: &None };
    let mut evm = EVM::new();
    evm.pc = 1;
    assert_eq!(push_2(&mut evm, &data), Ok(NextAction::Continue));
    assert_eq!(evm.stack, vec![w(0x0102)]);
    assert_eq!(evm.pc, 3);
    evm.pc = 1;
    assert_eq!(push_n(&mut evm, 3, &data), Ok(NextAction::Continue));
    assert_eq!(evm.stack[1], w(0x010200));
    assert_eq!(evm.pc, 4);
    assert_eq!(push_n(&mut evm, 0, &data), Ok(NextAction::Continue));
    assert_eq!(evm.stack[2], w(0));
    assert_eq!(evm.pc, 4);

    let mut long: Vec<u8> = vec![0x7f];
    long.extend((1..=32u8).collect::<Vec<u8>>());
    let data = ExecutionData { bytecode: &long, tx: &None, block: &None, state: &None };
    let mut evm = EVM::new();
    evm.pc = 1;
    assert_eq!(push_32(&mut evm, &data), Ok(NextAction::Continue));
    assert_eq!(evm.stack, vec![Word { w0: 0x191a_1b1c_1d1e_1f20, w1: 0x1112_1314_1516_1718, w2: 0x090a_0b0c_0d0e_0f10, w3: 0x0102_0304_0506_0708 }]);
    assert_eq!(evm.pc, 33);
}

#[test]
fn a_push_past_the_end_of_the_program_is_missing_data() {
    let (stack, success, error) = run(vec![0x61, 0x01]);
    assert!(!success);
    assert_eq!(error, Some(EvmError::MissingData));
    assert!(stack.is_empty());
    let (_, success, error) = run(vec![0x60]);
    assert!(!success);
    assert_eq!(error, Some(EvmError::MissingData));

    let code: Vec<u8> = vec![0x61, 0x01];
    let data = ExecutionData { bytecode: &code, tx: &None, block: &None, state: &None };
    let mut evm = EVM::new();
    evm.pc = 1;
    assert_eq!(push_2(&mut evm, &data), Err(EvmError::MissingData));
    assert_eq!(evm.pc, 1);
    assert!(evm.stack.is_empty());
    evm.pc = 7;
    assert_eq!(push_n(&mut evm, 1, &data), Err(EvmError::MissingData));
}

#[test]
fn dup_copies_the_nth_value_to_the_top() {
    let mut evm = EVM::new();
    evm.stack = vec![w(1), w(2), w(3)];
    assert_eq!(dup_n(&mut evm, 1), Ok(NextAction::Continue));
    assert_eq!(evm.stack, vec![w(1), w(2), w(3), w(3)]);
    assert_eq!(dup_n(&mut evm, 4), Ok(NextAction::Continue));
    assert_eq!(evm.stack, vec![w(1), w(2), w(3), w(3), w(1)]);
    assert_eq!(dup_n(&mut evm, 6), Err(EvmError::StackUnderflow));
    assert_eq!(evm.stack.len(), 5);
    // push 1, push 2, dup2
    let (stack, success, _) = run(vec![0x60, 0x01, 0x60, 0x02, 0x81]);
    assert!(success);
    assert_eq!(stack, vec![w(1), w(2), w(1)]);
}

#[test]
fn swap_exchanges_the_top_with_the_value_n_below() {
    let mut evm = EVM::new();
    evm.stack = vec![w(1), w(2), w(3), w(4)];
    assert_eq!(swap_n(&mut evm, 1), Ok(NextAction::Continue));
    assert_eq!(evm.stack, vec![w(1), w(2), w(4), w(3)]);
    assert_eq!(swap_n(&mut evm, 3), Ok(NextAction::Continue));
    assert_eq!(evm.stack, vec![w(3), w(2), w(4), w(1)]);
    assert_eq!(swap_n(&mut evm, 4), Err(EvmError::StackUnderflow));
    assert_eq!(evm.stack, vec![w(3), w(2), w(4), w(1)]);
    // push 1, push 2, push 3, swap2
    let (stack, success, _) = run(vec![0x60, 0x01, 0x60, 0x02, 0x60, 0x03, 0x91]);
    assert!(success);
    assert_eq!(stack, vec![w(1), w(2), w(3)]);
}

#[test]
fn log_keeps_the_most_recent_record() {
    let tx = Some(TxData {
        from: None,
        to: Some("0x1e79b045dc29eae9fdc69673c9dcd7c53e5e159d".to_string()),
        origin: None,
        gasprice: None,
        value: None,
        data: None,
    });
    let code: Vec<u8> = Vec::new();
    let data = ExecutionData { bytecode: &code, tx: &tx, block: &None, state: &None };
    let mut evm = EVM::new();
    evm.memory[1] = 0xaa;
    evm.memory[2] = 0xbb;
    evm.stack = vec![w(9), w(0x22), w(0x11), w(2), w(1)];
    assert_eq!(log_n(&mut evm, &data, 2), Ok(NextAction::Continue));
    assert_eq!(evm.stack, vec![w(9)]);
    assert_eq!(evm.logs.address, "0x1e79b045dc29eae9fdc69673c9dcd7c53e5e159d");
    assert_eq!(evm.logs.data, vec![0xaa, 0xbb]);
    assert_eq!(evm.logs.topics, vec![w(0x11), w(0x22)]);
    assert_eq!(evm.msize, 32);

    evm.stack = vec![w(0), w(40)];
    assert_eq!(log_n(&mut evm, &ExecutionData { bytecode: &code, tx: &None, block: &None, state: &None }, 0), Ok(NextAction::Continue));
    assert_eq!(evm.logs.address, "");
    assert!(evm.logs.data.is_empty());
    assert!(evm.logs.topics.is_empty());
    assert_eq!(evm.msize, 32);

    evm.stack = vec![w(1), w(63)];
    assert_eq!(log_n(&mut evm, &data, 0), Ok(NextAction::Continue));
    assert_eq!(evm.logs.data, vec![0]);
    assert_eq!(evm.msize, 64);
    evm.stack = vec![w(2), w(63)];
    assert_eq!(log_n(&mut evm, &data, 0), Ok(NextAction::Continue));
    assert_eq!(evm.logs.data, vec![0, 0]);
    assert_eq!(evm.msize, 96);

    evm.stack = vec![w(1), w(1), w(1)];
    assert_eq!(log_n(&mut evm, &data, 2), Err(EvmError::StackUnderflow));
    assert_eq!(evm.stack.len(), 3);
    evm.stack = vec![Word::max_value(), w(1)];
    assert_eq!(log_n(&mut evm, &data, 0), Err(EvmError::OutOfRange));

    // push 0x77, push 1, push 0, log1
    let program: Vec<u8> = vec![0x60, 0x77, 0x60, 0x01, 0x60, 0x00, 0xa1];
    let mut evm = EVM::new();
    let result = evm.execute(ExecutionData { bytecode: &program, tx: &tx, block: &None, state: &None });
    assert!(result.success);
    assert_eq!(result.logs.address, "0x1e79b045dc29eae9fdc69673c9dcd7c53e5e159d");
    assert_eq!(result.logs.data, vec![0]);
    assert_eq!(result.logs.topics, vec![w(0x77)]);
    assert_eq!(evm.logs.address, "");
}

#[test]
fn the_table_holds_every_handler() {
    let opcodes = get_opcodes();
    assert_eq!(opcodes.len(), 133);
    assert_eq!(opcodes.get(&0x00), Some(&Opcode::Stop));
    assert_eq!(opcodes.get(&0x01), Some(&Opcode::Add));
    assert_eq!(opcodes.get(&0x0a), Some(&Opcode::Exp));
    assert_eq!(opcodes.get(&0x0b), None);
    assert_eq!(opcodes.get(&0x1a), Some(&Opcode::Byte));
    assert_eq!(opcodes.get(&0x1d), Some(&Opcode::Sar));
    assert_eq!(opcodes.get(&0x20), Some(&Opcode::Sha3));
    assert_eq!(opcodes.get(&0x3f), Some(&Opcode::ExtCodeHash));
    assert_eq!(opcodes.get(&0x3d), None);
    assert_eq!(opcodes.get(&0x5b), Some(&Opcode::JumpDest));
    assert_eq!(opcodes.get(&0x5f), None);
    assert_eq!(opcodes.get(&0x60), Some(&Opcode::Push(1)));
    assert_eq!(opcodes.get(&0x7f), Some(&Opcode::Push(32)));
    assert_eq!(opcodes.get(&0x80), Some(&Opcode::Dup(1)));
    assert_eq!(opcodes.get(&0x8f), Some(&Opcode::Dup(16)));
    assert_eq!(opcodes.get(&0x90), Some(&Opcode::Swap(1)));
    assert_eq!(opcodes.get(&0x9f), Some(&Opcode::Swap(16)));
    assert_eq!(opcodes.get(&0xa0), Some(&Opcode::Log(0)));
    assert_eq!(opcodes.get(&0xa4), Some(&Opcode::Log(4)));
    assert_eq!(opcodes.get(&0xa5), None);
    assert_eq!(opcodes.get(&0xf3), Some(&Opcode::Return));
    assert_eq!(opcodes.get(&0xfc), None);
    assert_eq!(opcodes.get(&0xfd), Some(&Opcode::Invalid));
    assert_eq!(opcodes.get(&0xfe), Some(&Opcode::Invalid));
    assert_eq!(opcodes.get(&0xff), None);
}

#[test]
fn the_reduced_table_holds_the_core_handlers() {
    let opcodes = get_opcode_functions();
    assert_eq!(opcodes.len(), 47);
    assert_eq!(opcodes.get(&0x01), Some(&Opcode::Add));
    assert_eq!(opcodes.get(&0x12), Some(&Opcode::Slt));
    assert_eq!(opcodes.get(&0x13), None);
    assert_eq!(opcodes.get(&0x50), Some(&Opcode::Pop));
    assert_eq!(opcodes.get(&0x51), None);
    assert_eq!(opcodes.get(&0x6a), Some(&Opcode::Push(11)));
    assert_eq!(opcodes.get(&0x80), None);
    let full = get_opcodes();
    for (byte, op) in opcodes.iter() {
        assert_eq!(full.get(byte), Some(op));
    }
}

#[test]
fn the_pushes_are_registered_over_what_was_there() {
    let mut opcodes: Opcodes = HashMap::new();
    opcodes.insert(0x60, Opcode::Stop);
    opcodes.insert(0x01, Opcode::Add);
    insert_push_n_functions(&mut opcodes);
    assert_eq!(opcodes.len(), 33);
    assert_eq!(opcodes.get(&0x60), Some(&Opcode::Push(1)));
    assert_eq!(opcodes.get(&0x01), Some(&Opcode::Add));
    for n in 1..=32u8 {
        assert_eq!(opcodes.get(&(0x5f + n)), Some(&Opcode::Push(n)));
    }
}

#[test]
fn a_step_fetches_advances_and_dispatches() {
    let code: Vec<u8> = vec![0x60, 0x05, 0x0c];
    let data = ExecutionData { bytecode: &code, tx: &None, block: &None, state: &None };
    let opcodes = get_opcodes();
    let mut evm = EVM::new();
    assert_eq!(step(&mut evm, &data, &opcodes), Ok(NextAction::Continue));
    assert_eq!(evm.pc, 2);
    assert_eq!(evm.stack, vec![w(5)]);
    assert_eq!(step(&mut evm, &data, &opcodes), Err(EvmError::UnknownOpcode(0x0c)));
    assert_eq!(evm.pc, 3);
    assert_eq!(step(&mut evm, &data, &opcodes), Err(EvmError::MissingOpcode));
    assert_eq!(evm.pc, 3);
    assert_eq!(evm.stack, vec![w(5)]);

    evm.pc = 1;
    evm.stack.push(w(6));
    assert_eq!(dispatch(Opcode::Mul, &mut evm, &data), Ok(NextAction::Continue));
    assert_eq!(evm.stack, vec![w(30)]);
    assert_eq!(dispatch(Opcode::Invalid, &mut evm, &data), Ok(NextAction::Exit(1)));
    assert_eq!(evm.stack, vec![w(30)]);
    let halting: Vec<u8> = vec![0xfd, 0xfe];
    let data = ExecutionData { bytecode: &halting, tx: &None, block: &None, state: &None };
    evm.pc = 0;
    assert_eq!(step(&mut evm, &data, &opcodes), Ok(NextAction::Exit(1)));
    assert_eq!(step(&mut evm, &data, &opcodes), Ok(NextAction::Exit(1)));
    assert_eq!(evm.stack, vec![w(30)]);
    assert_eq!(dispatch(Opcode::Stop, &mut evm, &data), Ok(NextAction::Exit(0)));
}

#[test]
fn a_step_knows_only_the_handlers_of_its_table() {
    // push 0, mload
    let code: Vec<u8> = vec![0x60, 0x00, 0x51];
    let data = ExecutionData { bytecode: &code, tx: &None, block: &None, state: &None };
    let reduced = get_opcode_functions();
    let mut evm = EVM::new();
    assert_eq!(step(&mut evm, &data, &reduced), Ok(NextAction::Continue));
    assert_eq!(step(&mut evm, &data, &reduced), Err(EvmError::UnknownOpcode(0x51)));
    assert_eq!(evm.stack, vec![w(0)]);
    let full = get_opcodes();
    evm.pc = 2;
    assert_eq!(step(&mut evm, &data, &full), Ok(NextAction::Continue));
    assert_eq!(evm.msize, 32);
}

#[test]
fn a_run_that_does_not_end_is_cut_off() {
    // jumpdest, push 0, jump
    let code: Vec<u8> = vec![0x5b, 0x60, 0x00, 0x56];
    let mut evm = EVM::new();
    let result = evm.run(ExecutionData { bytecode: &code, tx: &None, block: &None, state: &None }, 1000);
    assert!(!result.success);
    assert_eq!(result.error, Some(EvmError::StepLimit));
    assert_eq!(evm.pc, 0);

    let short: Vec<u8> = vec![0x60, 0x01, 0x60, 0x02];
    let result = evm.run(ExecutionData { bytecode: &short, tx: &None, block: &None, state: &None }, 2);
    assert!(result.success);
    assert_eq!(result.stack, vec![w(2), w(1)]);
    let result = evm.run(ExecutionData { bytecode: &short, tx: &None, block: &None, state: &None }, 1);
    assert!(!result.success);
    assert_eq!(result.error, Some(EvmError::StepLimit));
    assert_eq!(result.stack, vec![w(1)]);
}
