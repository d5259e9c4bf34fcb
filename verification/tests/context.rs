use blast::bigint::Int;
use blast::context::{Context, Imm, IntKind, Param, Type, Value};
use std::cmp::Ordering;

fn number(n: i64) -> Int {
    if n < 0 {
        Int::from_arbitrary(n.unsigned_abs()).negated()
    } else {
        Int::from_arbitrary(n as u64)
    }
}

fn text(imm: Option<Imm>) -> Option<String> {
    imm.map(|i| i.to_text())
}

fn some(s: &str) -> Option<String> {
    Some(s.to_string())
}

#[test]
fn constants_are_added_once() {
    assert_eq!(Type::Int8.add_const().to_text(), "const __i8");
    assert_eq!(Type::Int8.add_const().add_const().to_text(), "const __i8");
    assert_eq!(Type::Int8.add_const().remove_const().to_text(), "__i8");
    assert!(Type::Int8.add_const().is_const());
    assert!(Type::Int8.add_const().is_integer());
}

#[test]
fn texts_of_types() {
    let f = Type::Function {
        ret: Box::new(Type::Void),
        params: vec![Param { taipe: Type::Bool }, Param { taipe: Type::Float64 }],
    };
    assert_eq!(f.to_text(), "fun (__bool, __f64) -> void");
    assert_eq!(Type::Pointer(Box::new(Type::Uint8)).to_text(), "*__u8");
    let a = Type::Array { count: 3, taipe: Box::new(Type::Char) };
    assert_eq!(a.to_text(), "[3]__char");
    assert_eq!(Type::Tuple(vec![Type::Int8, Type::Int16]).to_text(), "(__i8, __i16)");
    assert_eq!(Type::VarInt.to_text(), "{integer}");
    assert!(a.same(&a.copy()));
    assert!(!a.same(&f));
}

#[test]
fn sums_that_overflow_are_none() {
    assert_eq!(text(Imm::Int8(100).add(Imm::Int8(27))), some("127"));
    assert_eq!(text(Imm::Int8(100).add(Imm::Int8(28))), None);
    assert_eq!(text(Imm::Uint8(3).sub(Imm::Uint8(4))), None);
    assert_eq!(text(Imm::Int16(-300).mul(Imm::Int16(100))), some("-30000"));
    assert_eq!(text(Imm::Int16(-300).mul(Imm::Int16(200))), None);
}

#[test]
fn quotients_are_cut_towards_zero() {
    assert_eq!(text(Imm::Int32(-7).div(Imm::Int32(2))), some("-3"));
    assert_eq!(text(Imm::Int32(-7).modulo(Imm::Int32(2))), some("-1"));
    assert_eq!(text(Imm::Int32(7).div(Imm::Int32(0))), None);
    assert_eq!(text(Imm::Int32(7).modulo(Imm::Int32(0))), None);
    assert_eq!(text(Imm::Int8(-128).div(Imm::Int8(-1))), None);
}

#[test]
fn a_difference_undoes_a_sum() {
    let sum = Imm::Int64(40).add(Imm::Int64(2)).unwrap();
    assert_eq!(text(sum.sub(Imm::Int64(2))), some("40"));
    assert_eq!(text(Imm::Int64(2).add(Imm::Int64(40))), some("42"));
}

#[test]
fn negation_and_flipping_twice() {
    assert_eq!(Imm::Int8(5).negate().to_text(), "-5");
    assert_eq!(Imm::Int8(5).negate().negate().to_text(), "5");
    assert_eq!(Imm::Uint8(5).flip_bits().to_text(), "250");
    assert_eq!(Imm::Int8(5).flip_bits().to_text(), "-6");
    assert_eq!(Imm::Uint8(5).flip_bits().flip_bits().to_text(), "5");
    assert!(!Imm::Int8(-128).can_negate());
}

#[test]
fn shifts_and_bits() {
    assert_eq!(Imm::Uint8(1).shl(Imm::Uint32(3)).to_text(), "8");
    assert_eq!(Imm::Int8(-8).shr(Imm::Uint32(1)).to_text(), "-4");
    assert_eq!(Imm::Uint8(12).bit_and(Imm::Uint8(10)).to_text(), "8");
    assert_eq!(Imm::Uint8(12).bit_or(Imm::Uint8(10)).to_text(), "14");
    assert_eq!(Imm::Uint8(12).bit_xor(Imm::Uint8(10)).to_text(), "6");
}

#[test]
fn order_of_values() {
    assert_eq!(Imm::Int8(-1).compare(&Imm::Int8(1)), Some(Ordering::Less));
    assert_eq!(Imm::Char('b').compare(&Imm::Char('a')), Some(Ordering::Greater));
    assert_eq!(Imm::Bool(true).compare(&Imm::Bool(true)), Some(Ordering::Equal));
}

#[test]
fn kinds_hold_what_fits() {
    assert_eq!(text(Imm::of_int(IntKind::Uint8, &number(255))), some("255"));
    assert!(Imm::of_int(IntKind::Uint8, &number(256)).is_none());
    assert!(Imm::of_int(IntKind::Uint8, &number(-1)).is_none());
    assert_eq!(text(Imm::of_int(IntKind::Int8, &number(-128))), some("-128"));
    assert_eq!(text(Imm::of_size(IntKind::Int16, 7)), some("7"));
    assert!(Imm::of_size(IntKind::Int8, 128).is_none());
}

#[test]
fn casts_keep_what_fits_and_cut_the_rest() {
    assert_eq!(Imm::Int32(100).cast_to(IntKind::Uint8).to_text(), "100");
    assert_eq!(Imm::Int32(300).cast_to(IntKind::Uint8).to_text(), "44");
    assert_eq!(Imm::Int8(-1).cast_to(IntKind::Uint16).to_text(), "65535");
}

#[test]
fn widening_of_types() {
    assert!(Type::Int64.widens_from(&Type::Int8));
    assert!(!Type::Int8.widens_from(&Type::Int64));
    assert!(!Type::Int64.widens_from(&Type::Uint8));
}

#[test]
fn sizes_of_values() {
    assert_eq!(Imm::Uint64(9).to_usize(), Some(9));
    assert_eq!(Imm::Int8(-1).to_usize(), None);
    assert_eq!(Imm::VarInt(number(12)).to_usize(), None);
}

#[test]
fn contexts_of_strings_are_arrays_of_characters() {
    let ctx = Context::from_str("hey");
    assert_eq!(ctx.taipe.remove_const().to_text(), "[3]__char");
    match ctx.value {
        Value::Array(values) => assert_eq!(values.len(), 3),
        _ => panic!("no array"),
    }
}
