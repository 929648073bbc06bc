use evm_from_scratch::evm::opcodes::logic::{and, eq, gt, is_zero, lt, not, or, sgt, slt, xor};
use evm_from_scratch::evm::opcodes::misc::{byte, sar, shl, shr};
use evm_from_scratch::evm::utils::{flip_sign, is_negative};
use evm_from_scratch::evm::EVM;
use evm_from_scratch::utils::types::{EvmError, ExecutionData, NextAction};
use evm_from_scratch::word::Word;

fn w(x: u64) -> Word {
    Word::from_u64(x)
}

fn neg(x: u64) -> Word {
    Word::from_u64(x).wrapping_neg()
}

fn min_signed() -> Word {
    Word { w0: 0, w1: 0, w2: 0, w3: 0x8000_0000_0000_0000 }
}

fn apply(
    handler: fn(&mut EVM, &ExecutionData) -> Result<NextAction, EvmError>,
    operands: &[Word],
) -> Word {
    let code: Vec<u8> = Vec::new();
    let data = ExecutionData { bytecode: &code, tx: &None, block: &None, state: &None };
    let mut evm = EVM::new();
    evm.stack.push(w(77));
    for v in operands.iter().rev() {
        evm.stack.push(*v);
    }
    assert_eq!(handler(&mut evm, &data), Ok(NextAction::Continue));
    assert_eq!(evm.stack.len(), 2);
    assert_eq!(evm.stack[0], w(77));
    evm.stack[1]
}

#[test]
fn unsigned_ordering() {
    assert_eq!(apply(lt, &[w(9), w(10)]), w(1));
    assert_eq!(apply(lt, &[w(10), w(9)]), w(0));
    assert_eq!(apply(lt, &[w(10), w(10)]), w(0));
    assert_eq!(apply(gt, &[w(10), w(9)]), w(1));
    assert_eq!(apply(gt, &[w(9), w(10)]), w(0));
    assert_eq!(apply(gt, &[w(10), w(10)]), w(0));
    assert_eq!(apply(lt, &[w(1), neg(1)]), w(1));
    assert_eq!(apply(lt, &[Word { w0: 5, w1: 0, w2: 0, w3: 1 }, Word { w0: 1, w1: 0, w2: 0, w3: 2 }]), w(1));
}

#[test]
fn signed_ordering() {
    assert_eq!(apply(slt, &[neg(1), w(0)]), w(1));
    assert_eq!(apply(slt, &[w(0), neg(1)]), w(0));
    assert_eq!(apply(slt, &[w(9), w(10)]), w(1));
    assert_eq!(apply(slt, &[w(10), w(10)]), w(0));
    assert_eq!(apply(slt, &[neg(10), neg(9)]), w(1));
    assert_eq!(apply(slt, &[neg(9), neg(10)]), w(0));
    assert_eq!(apply(slt, &[neg(9), neg(9)]), w(0));
    assert_eq!(apply(slt, &[min_signed(), neg(1)]), w(1));
    assert_eq!(apply(sgt, &[w(0), neg(1)]), w(1));
    assert_eq!(apply(sgt, &[neg(1), w(0)]), w(0));
    assert_eq!(apply(sgt, &[w(10), w(9)]), w(1));
    assert_eq!(apply(sgt, &[w(10), w(10)]), w(0));
    assert_eq!(apply(sgt, &[neg(9), neg(10)]), w(1));
    assert_eq!(apply(sgt, &[neg(10), neg(9)]), w(0));
}

#[test]
fn equality_and_zero_test() {
    assert_eq!(apply(eq, &[w(10), w(10)]), w(1));
    assert_eq!(apply(eq, &[w(10), w(9)]), w(0));
    assert_eq!(apply(eq, &[min_signed(), w(0)]), w(0));
    assert_eq!(apply(is_zero, &[w(0)]), w(1));
    assert_eq!(apply(is_zero, &[w(9)]), w(0));
    assert_eq!(apply(is_zero, &[min_signed()]), w(0));
}

#[test]
fn bitwise_operations() {
    assert_eq!(apply(and, &[w(0b1110), w(0b0111)]), w(0b0110));
    assert_eq!(apply(or, &[w(0b1100), w(0b0110)]), w(0b1110));
    assert_eq!(apply(xor, &[w(0b1100), w(0b0110)]), w(0b1010));
    assert_eq!(apply(not, &[w(0)]), Word::max_value());
    assert_eq!(apply(not, &[w(0x0f)]), Word {
        w0: 0xffff_ffff_ffff_fff0,
        w1: u64::MAX,
        w2: u64::MAX,
        w3: u64::MAX,
    });
}

#[test]
fn not_twice_is_the_identity_and_xor_with_itself_is_zero() {
    let values = [w(0), w(1), w(0xdead_beef), min_signed(), Word::max_value(), Word { w0: 1, w1: 2, w2: 3, w3: 4 }];
    for a in values {
        assert_eq!(a.not().not(), a);
        assert_eq!(a.xor(a), w(0));
        let once = apply(not, &[a]);
        assert_eq!(apply(not, &[once]), a);
        assert_eq!(apply(xor, &[a, a]), w(0));
    }
}

#[test]
fn shifts_take_the_shift_from_the_top() {
    assert_eq!(apply(shl, &[w(1), w(1)]), w(2));
    assert_eq!(apply(shl, &[w(4), w(0xff)]), w(0xff0));
    assert_eq!(apply(shl, &[w(255), w(1)]), min_signed());
    assert_eq!(apply(shl, &[w(256), w(1)]), w(0));
    assert_eq!(apply(shl, &[Word::max_value(), w(1)]), w(0));
    assert_eq!(apply(shl, &[w(64), w(1)]), Word { w0: 0, w1: 1, w2: 0, w3: 0 });
    assert_eq!(apply(shr, &[w(1), w(2)]), w(1));
    assert_eq!(apply(shr, &[w(4), w(0xff)]), w(0xf));
    assert_eq!(apply(shr, &[w(255), min_signed()]), w(1));
    assert_eq!(apply(shr, &[w(256), Word::max_value()]), w(0));
    assert_eq!(apply(shr, &[Word::max_value(), Word::max_value()]), w(0));
}

#[test]
fn arithmetic_shift_negates_shifts_and_negates() {
    assert_eq!(apply(sar, &[w(1), w(4)]), w(2));
    assert_eq!(apply(sar, &[w(1), neg(2)]), neg(1));
    assert_eq!(apply(sar, &[w(4), neg(256)]), neg(16));
    assert_eq!(apply(sar, &[w(1), neg(1)]), w(0));
    assert_eq!(apply(sar, &[w(300), neg(1)]), w(0));
    assert_eq!(apply(sar, &[w(300), w(1)]), w(0));
}

#[test]
fn byte_counts_from_the_most_significant_end() {
    assert_eq!(apply(byte, &[w(31), w(0xff)]), w(0xff));
    assert_eq!(apply(byte, &[w(30), w(0xff00)]), w(0xff));
    assert_eq!(apply(byte, &[w(30), w(0xff)]), w(0));
    assert_eq!(apply(byte, &[w(0), min_signed()]), w(0x80));
    assert_eq!(apply(byte, &[w(32), Word::max_value()]), w(0));
    assert_eq!(apply(byte, &[Word::max_value(), Word::max_value()]), w(0));
}

#[test]
fn sign_helpers() {
    assert!(!is_negative(&w(0)));
    assert!(!is_negative(&w(5)));
    assert!(is_negative(&neg(5)));
    assert!(is_negative(&min_signed()));
    assert!(!is_negative(&Word { w0: u64::MAX, w1: u64::MAX, w2: u64::MAX, w3: 0x7fff_ffff_ffff_ffff }));
    let mut x = w(1);
    flip_sign(&mut x);
    assert_eq!(x, Word::max_value());
    flip_sign(&mut x);
    assert_eq!(x, w(1));
    let mut z = w(0);
    flip_sign(&mut z);
    assert_eq!(z, w(0));
    let mut m = min_signed();
    flip_sign(&mut m);
    assert_eq!(m, min_signed());
}
