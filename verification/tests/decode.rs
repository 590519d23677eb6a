use loot_decompiler::decompiler::parse_const;
use loot_decompiler::loot::{Datum, Expr, Operation};

#[test]
fn boolean_true_pattern() {
    assert_eq!(
        parse_const(0b011000),
        Some(Expr::Literal(Datum::Boolean(true)))
    );
}

#[test]
fn boolean_false_pattern() {
    assert_eq!(
        parse_const(0b111000),
        Some(Expr::Literal(Datum::Boolean(false)))
    );
}

#[test]
fn void_pattern() {
    assert_eq!(parse_const(0b1111000), Some(Expr::Op(Operation::Void)));
}

#[test]
fn integer_zero() {
    assert_eq!(parse_const(0), Some(Expr::Literal(Datum::Integer(0))));
}

#[test]
fn integer_small() {
    assert_eq!(parse_const(0x10), Some(Expr::Literal(Datum::Integer(1))));
    assert_eq!(parse_const(0x30), Some(Expr::Literal(Datum::Integer(3))));
}

#[test]
fn integer_negative() {
    // The payload is read with its sign: the tagged form of a negative
    // integer decodes back to that integer.
    let w = (-5i64 as u64) << 4;
    assert_eq!(w & 0xf, 0);
    assert_eq!(parse_const(w), Some(Expr::Literal(Datum::Integer(-5))));
    assert_eq!(
        parse_const(0xFFFF_FFFF_FFFF_FFF0),
        Some(Expr::Literal(Datum::Integer(-1)))
    );
}

#[test]
fn integer_encode_round_trip() {
    // Decoding a tagged integer and re-encoding it is the identity, and
    // encoding a representable integer and decoding it gives it back.
    for w in [0u64, 0x10, 0x30, 0xFFFF_FFFF_FFFF_FFB0, 1 << 44] {
        match parse_const(w) {
            Some(Expr::Literal(Datum::Integer(i))) => assert_eq!((i as u64) << 4, w),
            other => panic!("expected an integer decode, got {:?}", other),
        }
    }
    for i in [0i64, 1, 3, -1, -5, 1 << 40, -(1 << 40)] {
        let w = (i as u64) << 4;
        assert_eq!(parse_const(w), Some(Expr::Literal(Datum::Integer(i))));
    }
}

#[test]
fn character_ascii() {
    let w = (('A' as u64) << 5) | 0b01000;
    assert_eq!(parse_const(w), Some(Expr::Literal(Datum::Character('A'))));
}

#[test]
fn character_unicode() {
    let w = (0x1F600u64 << 5) | 0b01000;
    assert_eq!(
        parse_const(w),
        Some(Expr::Literal(Datum::Character('\u{1F600}')))
    );
}

#[test]
fn character_surrogate_fails() {
    let w = (0xD800u64 << 5) | 0b01000;
    assert_eq!(parse_const(w), None);
}

#[test]
fn character_above_unicode_max_fails() {
    let w = (0x110000u64 << 5) | 0b01000;
    assert_eq!(parse_const(w), None);
}

#[test]
fn character_huge_payload_fails() {
    let w = (1u64 << 40) | 0b01000;
    assert_eq!(parse_const(w), None);
}

#[test]
fn undecodable_patterns() {
    assert_eq!(parse_const(0b100), None);
    assert_eq!(parse_const(0b1100), None);
    assert_eq!(parse_const(0b11000000000000001100), None);
}
