use evm_from_scratch::evm::opcodes::arithmetic::{
    add_mod, div, exp, modulo, mul_mod, s_div, s_modulo,
};
use evm_from_scratch::evm::opcodes::{arithmetic, stack};
use evm_from_scratch::evm::EVM;
use evm_from_scratch::utils::types::{EvmError, ExecutionData, NextAction};
use evm_from_scratch::word::Word;
use primitive_types::U256;

fn w(x: u64) -> Word {
    Word::from_u64(x)
}

fn neg(x: u64) -> Word {
    Word::from_u64(x).wrapping_neg()
}

fn big(w: Word) -> U256 {
    U256([w.w0, w.w1, w.w2, w.w3])
}

fn min_signed() -> Word {
    Word { w0: 0, w1: 0, w2: 0, w3: 0x8000_0000_0000_0000 }
}

/// Runs a handler on a stack whose top is the first of `operands`.
fn apply(
    handler: fn(&mut EVM, &ExecutionData) -> Result<NextAction, EvmError>,
    operands: &[Word],
) -> Vec<Word> {
    let code: Vec<u8> = Vec::new();
    let data = ExecutionData { bytecode: &code, tx: &None, block: &None, state: &None };
    let mut evm = EVM::new();
    for v in operands.iter().rev() {
        evm.stack.push(*v);
    }
    assert_eq!(handler(&mut evm, &data), Ok(NextAction::Continue));
    evm.stack.clone()
}

#[test]
fn push_push_add_leaves_three() {
    let code: Vec<u8> = vec![0x60, 0x01, 0x60, 0x02];
    let data = ExecutionData { bytecode: &code, tx: &None, block: &None, state: &None };
    let mut evm = EVM::new();
    evm.pc = 1;
    assert_eq!(stack::push_1(&mut evm, &data), Ok(NextAction::Continue));
    assert_eq!(evm.pc, 2);
    evm.pc = 3;
    assert_eq!(stack::push_1(&mut evm, &data), Ok(NextAction::Continue));
    assert_eq!(arithmetic::add(&mut evm, &data), Ok(NextAction::Continue));
    assert_eq!(evm.stack, vec![w(3)]);
    let mut reversed = evm.stack.clone();
    reversed.reverse();
    assert_eq!(reversed, vec![w(3)]);
}

#[test]
fn add_wraps_at_the_width() {
    assert_eq!(apply(arithmetic::add, &[Word::max_value(), w(2)]), vec![w(1)]);
    assert_eq!(apply(arithmetic::add, &[w(10), w(32)]), vec![w(42)]);
}

#[test]
fn sub_takes_the_second_from_the_top() {
    assert_eq!(apply(arithmetic::sub, &[w(10), w(3)]), vec![w(7)]);
    assert_eq!(apply(arithmetic::sub, &[w(3), w(10)]), vec![neg(7)]);
    assert_eq!(apply(arithmetic::sub, &[w(0), w(1)]), vec![Word::max_value()]);
}

#[test]
fn mul_wraps_at_the_width() {
    assert_eq!(apply(arithmetic::mul, &[w(6), w(7)]), vec![w(42)]);
    assert_eq!(apply(arithmetic::mul, &[Word::max_value(), w(2)]), vec![neg(2)]);
}

#[test]
fn div_and_mod_by_zero_are_zero() {
    let values = [w(0), w(1), w(7), Word::max_value(), min_signed()];
    for a in values {
        assert_eq!(apply(div, &[a, w(0)]), vec![w(0)]);
        assert_eq!(apply(modulo, &[a, w(0)]), vec![w(0)]);
        assert_eq!(apply(s_div, &[a, w(0)]), vec![w(0)]);
        assert_eq!(apply(s_modulo, &[a, w(0)]), vec![w(0)]);
    }
}

#[test]
fn div_and_mod_are_exact() {
    assert_eq!(apply(div, &[w(17), w(5)]), vec![w(3)]);
    assert_eq!(apply(modulo, &[w(17), w(5)]), vec![w(2)]);
    assert_eq!(apply(div, &[w(5), w(17)]), vec![w(0)]);
    assert_eq!(apply(modulo, &[w(5), w(17)]), vec![w(5)]);
}

#[test]
fn signed_division_restores_the_sign() {
    assert_eq!(apply(s_div, &[neg(6), w(2)]), vec![neg(3)]);
    assert_eq!(apply(s_div, &[w(6), neg(2)]), vec![neg(3)]);
    assert_eq!(apply(s_div, &[neg(6), neg(2)]), vec![w(3)]);
    assert_eq!(apply(s_div, &[w(6), w(2)]), vec![w(3)]);
    assert_eq!(apply(s_div, &[neg(1), w(2)]), vec![w(0)]);
}

#[test]
fn signed_division_of_the_least_number_by_minus_one() {
    assert_eq!(apply(s_div, &[min_signed(), neg(1)]), vec![min_signed()]);
    assert_eq!(apply(s_div, &[min_signed(), w(1)]), vec![min_signed()]);
}

#[test]
fn signed_division_sign_is_the_xor_of_the_signs() {
    let values = [w(1), w(6), w(1000), neg(1), neg(6), neg(1000), min_signed(), Word::max_value()];
    for a in values {
        for b in values {
            if !a.abs().lt(&b.abs()) && !(a == min_signed() && b == neg(1)) {
                let q = apply(s_div, &[a, b])[0];
                assert_eq!(q.is_negative(), a.is_negative() != b.is_negative());
            }
        }
    }
}

#[test]
fn signed_modulo_follows_the_dividend() {
    assert_eq!(apply(s_modulo, &[neg(10), w(3)]), vec![neg(1)]);
    assert_eq!(apply(s_modulo, &[w(10), neg(3)]), vec![w(1)]);
    assert_eq!(apply(s_modulo, &[neg(10), neg(3)]), vec![neg(1)]);
    assert_eq!(apply(s_modulo, &[w(10), w(3)]), vec![w(1)]);
}

#[test]
fn add_mod_is_an_addition_then_a_remainder() {
    assert_eq!(apply(add_mod, &[w(10), w(10), w(8)]), vec![w(4)]);
    assert_eq!(apply(add_mod, &[Word::max_value(), w(2), w(3)]), vec![w(1)]);
    assert_eq!(apply(add_mod, &[w(10), w(10), w(0)]), vec![w(0)]);
}

#[test]
fn mul_mod_is_a_multiplication_then_a_remainder() {
    assert_eq!(apply(mul_mod, &[w(10), w(10), w(8)]), vec![w(4)]);
    assert_eq!(apply(mul_mod, &[Word::max_value(), w(2), w(5)]), vec![w(4)]);
    assert_eq!(apply(mul_mod, &[w(10), w(10), w(0)]), vec![w(0)]);
}

#[test]
fn exp_wraps_at_the_width() {
    assert_eq!(apply(exp, &[w(2), w(10)]), vec![w(1024)]);
    assert_eq!(apply(exp, &[w(2), w(256)]), vec![w(0)]);
    assert_eq!(apply(exp, &[w(2), w(255)]), vec![min_signed()]);
    assert_eq!(apply(exp, &[w(0), w(0)]), vec![w(1)]);
    assert_eq!(apply(exp, &[w(7), w(0)]), vec![w(1)]);
    assert_eq!(apply(exp, &[w(3), w(200)])[0], {
        let (p, _) = U256::from(3u64).overflowing_pow(U256::from(200u64));
        Word { w0: p.0[0], w1: p.0[1], w2: p.0[2], w3: p.0[3] }
    });
}

#[test]
fn arithmetic_agrees_with_the_big_integers() {
    let values = [
        w(0),
        w(1),
        w(0xdead_beef),
        Word { w0: 1, w1: 2, w2: 3, w3: 4 },
        Word { w0: u64::MAX, w1: 0, w2: u64::MAX, w3: 0x7fff_ffff_ffff_ffff },
        min_signed(),
        Word::max_value(),
    ];
    for a in values {
        for b in values {
            assert_eq!(big(a.wrapping_add(b)), big(a).overflowing_add(big(b)).0);
            assert_eq!(big(a.wrapping_sub(b)), big(a).overflowing_sub(big(b)).0);
            assert_eq!(big(a.wrapping_mul(b)), big(a).overflowing_mul(big(b)).0);
            if !b.is_zero() {
                assert_eq!(big(a.div(b)), big(a) / big(b));
                assert_eq!(big(a.rem(b)), big(a) % big(b));
            }
            assert_eq!(a.lt(&b), big(a) < big(b));
        }
    }
}

#[test]
fn a_handler_that_lacks_operands_leaves_the_stack() {
    let code: Vec<u8> = Vec::new();
    let data = ExecutionData { bytecode: &code, tx: &None, block: &None, state: &None };
    let mut evm = EVM::new();
    evm.stack.push(w(5));
    assert_eq!(arithmetic::add(&mut evm, &data), Err(EvmError::StackUnderflow));
    assert_eq!(evm.stack, vec![w(5)]);
    assert_eq!(add_mod(&mut evm, &data), Err(EvmError::StackUnderflow));
    evm.stack.push(w(6));
    assert_eq!(add_mod(&mut evm, &data), Err(EvmError::StackUnderflow));
    assert_eq!(evm.stack, vec![w(5), w(6)]);
}
