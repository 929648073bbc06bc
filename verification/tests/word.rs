use evm_from_scratch::word::Word;
use primitive_types::U256;

fn w(x: u64) -> Word {
    Word::from_u64(x)
}

#[test]
fn words_from_machine_integers() {
    assert_eq!(w(7), Word { w0: 7, w1: 0, w2: 0, w3: 0 });
    assert_eq!(Word::from_usize(9), Word { w0: 9, w1: 0, w2: 0, w3: 0 });
    assert_eq!(Word::from_bool(true), w(1));
    assert_eq!(Word::from_bool(false), w(0));
    assert_eq!(Word::max_value(), Word { w0: u64::MAX, w1: u64::MAX, w2: u64::MAX, w3: u64::MAX });
}

#[test]
fn narrowing_to_a_machine_integer() {
    assert_eq!(w(7).to_usize(), Some(7));
    assert_eq!(w(0).to_usize(), Some(0));
    assert_eq!(Word { w0: 7, w1: 1, w2: 0, w3: 0 }.to_usize(), None);
    assert_eq!(Word { w0: 7, w1: 0, w2: 0, w3: 1 }.to_usize(), None);
    assert_eq!(Word::max_value().to_usize(), None);
}

#[test]
fn zero_test_and_order() {
    assert!(w(0).is_zero());
    assert!(!w(1).is_zero());
    assert!(!Word { w0: 0, w1: 0, w2: 1, w3: 0 }.is_zero());
    assert!(w(1).lt(&w(2)));
    assert!(!w(2).lt(&w(2)));
    assert!(w(u64::MAX).lt(&Word { w0: 0, w1: 1, w2: 0, w3: 0 }));
    assert!(!Word { w0: 0, w1: 1, w2: 0, w3: 0 }.lt(&w(u64::MAX)));
}

#[test]
fn big_endian_bytes_round_trip() {
    let x = Word { w0: 0x0807_0605_0403_0201, w1: 0x100f_0e0d_0c0b_0a09, w2: 0x1817_1615_1413_1211, w3: 0x201f_1e1d_1c1b_1a19 };
    let bytes = x.to_be_bytes();
    let expected: Vec<u8> = (1..=32u8).rev().collect();
    assert_eq!(bytes, expected);
    assert_eq!(Word::from_be_bytes(&bytes), x);
    assert_eq!(Word::from_be_bytes(&[]), w(0));
    assert_eq!(Word::from_be_bytes(&[0x01, 0x02]), w(0x0102));
    assert_eq!(Word::from_be_bytes(&[0xff]), w(0xff));
    assert_eq!(x.byte(0), 0x01);
    assert_eq!(x.byte(31), 0x20);
    assert_eq!(x.byte(8), 0x09);
}

#[test]
fn hexadecimal_text_to_word() {
    assert_eq!(Word::from_hex("0x10"), Some(w(16)));
    assert_eq!(Word::from_hex("10"), Some(w(16)));
    assert_eq!(Word::from_hex("fF"), Some(w(255)));
    assert_eq!(Word::from_hex("abc"), Some(w(0xabc)));
    assert_eq!(Word::from_hex(""), Some(w(0)));
    assert_eq!(Word::from_hex("0x"), Some(w(0)));
    assert_eq!(Word::from_hex("0x0x1"), None);
    assert_eq!(Word::from_hex("0X10"), None);
    assert_eq!(Word::from_hex("12g4"), None);
    assert_eq!(Word::from_hex("+12"), None);
    assert_eq!(Word::from_hex(&"f".repeat(64)), Some(Word::max_value()));
    assert_eq!(Word::from_hex(&"f".repeat(65)), None);
    assert_eq!(Word::from_hex(&format!("0x{}", "0".repeat(64))), Some(w(0)));
    assert_eq!(
        Word::from_hex("0x1e79b045dc29eae9fdc69673c9dcd7c53e5e159d"),
        Some(Word { w0: 0xc9dc_d7c5_3e5e_159d, w1: 0xdc29_eae9_fdc6_9673, w2: 0x1e79_b045, w3: 0 })
    );
}

#[test]
fn word_to_hexadecimal_text() {
    assert_eq!(w(0).to_hex(), "0");
    assert_eq!(w(0xabc).to_hex(), "abc");
    assert_eq!(w(16).to_hex(), "10");
    assert_eq!(Word::max_value().to_hex(), "f".repeat(64));
    assert_eq!(
        Word { w0: 0xc9dc_d7c5_3e5e_159d, w1: 0xdc29_eae9_fdc6_9673, w2: 0x1e79_b045, w3: 0 }.to_hex(),
        "1e79b045dc29eae9fdc69673c9dcd7c53e5e159d"
    );
}

#[test]
fn negation_and_magnitude() {
    assert_eq!(w(0).wrapping_neg(), w(0));
    assert_eq!(w(1).wrapping_neg(), Word::max_value());
    assert_eq!(Word::max_value().wrapping_neg(), w(1));
    assert_eq!(w(5).abs(), w(5));
    assert_eq!(w(5).wrapping_neg().abs(), w(5));
    let least = Word { w0: 0, w1: 0, w2: 0, w3: 0x8000_0000_0000_0000 };
    assert_eq!(least.abs(), least);
}

#[test]
fn shifts_and_powers_agree_with_the_big_integers() {
    let values = [w(1), w(0xdead_beef), Word { w0: 1, w1: 2, w2: 3, w3: 4 }, Word::max_value()];
    for a in values {
        let big = U256([a.w0, a.w1, a.w2, a.w3]);
        for s in [0u64, 1, 7, 63, 64, 65, 128, 200, 255] {
            let l = a.shl(w(s));
            let r = a.shr(w(s));
            assert_eq!(U256([l.w0, l.w1, l.w2, l.w3]), big << (s as usize));
            assert_eq!(U256([r.w0, r.w1, r.w2, r.w3]), big >> (s as usize));
        }
        for e in [0u64, 1, 2, 3, 100] {
            let p = a.wrapping_pow(w(e));
            assert_eq!(U256([p.w0, p.w1, p.w2, p.w3]), big.overflowing_pow(U256::from(e)).0);
        }
    }
}
