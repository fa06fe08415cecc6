use std::cmp::Ordering;
use std::collections::hash_map::DefaultHasher;
use std::hash::{Hash, Hasher};

use serde_hashkey::{
    serialize_f32, serialize_f64, Error, Float, FloatRepr, Integer, Key, OrderedFloat,
    OrderedFloatPolicy, RejectFloatPolicy,
};

type K = Key<RejectFloatPolicy>;
type OK = Key<OrderedFloatPolicy>;

fn hash_of<T: Hash>(value: &T) -> u64 {
    let mut hasher = DefaultHasher::new();
    value.hash(&mut hasher);
    hasher.finish()
}

fn s(text: &str) -> K {
    Key::String(text.to_string())
}

fn sample_keys() -> Vec<K> {
    vec![
        Key::Unit,
        Key::Bool(false),
        Key::Bool(true),
        Key::from(-3i8),
        Key::from(7i8),
        Key::from(5u8),
        Key::from(5u32),
        Key::from(u128::MAX),
        Key::from(i128::MIN),
        Key::Bytes(vec![]),
        Key::Bytes(vec![1, 2]),
        Key::Bytes(vec![1, 2, 0]),
        Key::Bytes(vec![2]),
        s(""),
        s("a"),
        s("ab"),
        s("b"),
        s("é"),
        s("z"),
        Key::Sequence(vec![]),
        Key::Sequence(vec![Key::Unit]),
        Key::Sequence(vec![Key::Unit, Key::Bool(true)]),
        Key::Sequence(vec![Key::Bool(false)]),
        Key::Mapping(vec![]),
        Key::Mapping(vec![(s("a"), Key::Unit)]),
        Key::Mapping(vec![(s("a"), Key::Bool(true))]),
        Key::Mapping(vec![(s("a"), Key::Unit), (s("b"), Key::Unit)]),
        Key::Mapping(vec![(s("b"), Key::Unit)]),
    ]
}

#[test]
fn compare_agrees_with_ord() {
    let keys = sample_keys();
    for a in &keys {
        for b in &keys {
            assert_eq!(a.compare(b), a.cmp(b), "{:?} against {:?}", a, b);
            assert_eq!(a.compare(b) == Ordering::Equal, a == b);
        }
    }
}

#[test]
fn variant_order_is_fixed() {
    let keys = vec![
        K::Unit,
        Key::Bool(true),
        Key::from(0u8),
        Key::Bytes(vec![]),
        s(""),
        Key::Sequence(vec![]),
        Key::Mapping(vec![]),
    ];
    for i in 0..keys.len() {
        for j in 0..keys.len() {
            assert_eq!(keys[i].compare(&keys[j]), i.cmp(&j));
        }
    }
}

#[test]
fn width_is_part_of_the_integer() {
    let a = K::from(5u8);
    let b = K::from(5u32);
    assert_ne!(a, b);
    assert_eq!(a.compare(&b), Ordering::Less);
    assert_eq!(K::from(5i64), Key::Integer(Integer::I64(5)));
    assert_ne!(K::from(5i64), K::from(5u64));
    assert_eq!(K::from(i16::MIN).compare(&K::from(i16::MAX)), Ordering::Less);
}

#[test]
fn strings_order_by_bytes() {
    assert_eq!(s("Z").compare(&s("a")), Ordering::Less);
    assert_eq!(s("z").compare(&s("é")), Ordering::Less);
    assert_eq!(s("ab").compare(&s("a")), Ordering::Greater);
}

#[test]
fn floats_are_refused_by_default() {
    assert_eq!(
        serialize_f32::<RejectFloatPolicy>(0f32.to_bits()),
        Err(Error::UnsupportedType("f32"))
    );
    assert_eq!(
        serialize_f64::<RejectFloatPolicy>(0f64.to_bits()),
        Err(Error::UnsupportedType("f64"))
    );
}

#[test]
fn ordered_floats_are_kept_and_ordered_by_width() {
    let a: OK = serialize_f32(0f32.to_bits()).unwrap();
    let b: OK = serialize_f64(0f64.to_bits()).unwrap();
    match &a {
        Key::Float(Float::F32(x)) => assert_eq!(x.to_bits(), 0f32.to_bits()),
        other => panic!("unexpected: {:?}", other),
    }
    match &b {
        Key::Float(Float::F64(x)) => assert_eq!(x.to_bits(), 0f64.to_bits()),
        other => panic!("unexpected: {:?}", other),
    }
    assert_ne!(a, b);
    assert!(a < b);
    assert_eq!(a.compare(&b), Ordering::Less);
    let big: OK = serialize_f32(f32::MAX.to_bits()).unwrap();
    let small: OK = serialize_f64((-1.0e300f64).to_bits()).unwrap();
    assert_eq!(big.compare(&small), Ordering::Less);
}

fn f32_key(x: f32) -> OrderedFloat<u32> {
    <OrderedFloat<u32> as FloatRepr<u32>>::serialize(x.to_bits()).unwrap()
}

fn f64_key(x: f64) -> OrderedFloat<u64> {
    <OrderedFloat<u64> as FloatRepr<u64>>::serialize(x.to_bits()).unwrap()
}

fn sample_f32() -> Vec<f32> {
    vec![
        f32::NEG_INFINITY,
        f32::MIN,
        -1.5,
        -1.0,
        -f32::MIN_POSITIVE,
        -1.0e-45,
        -0.0,
        0.0,
        1.0e-45,
        f32::MIN_POSITIVE,
        0.5,
        1.0,
        f32::MAX,
        f32::INFINITY,
        f32::NAN,
        -f32::NAN,
        f32::from_bits(0x7FC0_0001),
        f32::from_bits(0xFF80_0001),
    ]
}

fn sample_f64() -> Vec<f64> {
    vec![
        f64::NEG_INFINITY,
        f64::MIN,
        -2.5,
        -f64::MIN_POSITIVE,
        -0.0,
        0.0,
        5.0e-324,
        1.0,
        f64::MAX,
        f64::INFINITY,
        f64::NAN,
        f64::from_bits(0xFFF0_0000_0000_0001),
    ]
}

/// The order of `ordered_float`, except that negative zero comes just before
/// zero instead of being equal to it.
fn expected_f32(x: f32, y: f32) -> Ordering {
    if x == 0.0 && y == 0.0 {
        x.is_sign_positive().cmp(&y.is_sign_positive())
    } else {
        ordered_float::OrderedFloat(x).cmp(&ordered_float::OrderedFloat(y))
    }
}

fn expected_f64(x: f64, y: f64) -> Ordering {
    if x == 0.0 && y == 0.0 {
        x.is_sign_positive().cmp(&y.is_sign_positive())
    } else {
        ordered_float::OrderedFloat(x).cmp(&ordered_float::OrderedFloat(y))
    }
}

#[test]
fn f32_order_matches_ordered_float() {
    for &x in &sample_f32() {
        for &y in &sample_f32() {
            let expected = expected_f32(x, y);
            assert_eq!(f32_key(x).compare(&f32_key(y)), expected, "{} against {}", x, y);
            assert_eq!(f32_key(x).cmp(&f32_key(y)), expected);
            assert_eq!(f32_key(x) == f32_key(y), expected == Ordering::Equal);
        }
    }
}

#[test]
fn f64_order_matches_ordered_float() {
    for &x in &sample_f64() {
        for &y in &sample_f64() {
            let expected = expected_f64(x, y);
            assert_eq!(f64_key(x).compare(&f64_key(y)), expected, "{} against {}", x, y);
            assert_eq!(f64_key(x).cmp(&f64_key(y)), expected);
            assert_eq!(f64_key(x) == f64_key(y), expected == Ordering::Equal);
        }
    }
}

#[test]
fn floats_come_back_as_they_went_in() {
    for &x in &sample_f32() {
        let back = f32::from_bits(f32_key(x).to_bits());
        if x.is_nan() {
            assert!(back.is_nan());
            assert_eq!(back.to_bits(), 0x7FC0_0000);
        } else {
            assert_eq!(back.to_bits(), x.to_bits());
        }
    }
    assert_eq!(f32_key(1.5).to_bits(), 1.5f32.to_bits());
    assert_eq!(f32_key(-0.0).to_bits(), 0x8000_0000);
    assert!(f32_key(-0.0) < f32_key(0.0));
    for &x in &sample_f64() {
        let back = f64::from_bits(f64_key(x).to_bits());
        if x.is_nan() {
            assert!(back.is_nan());
        } else {
            assert_eq!(back.to_bits(), x.to_bits());
        }
    }
}

#[test]
fn equal_keys_hash_alike() {
    let nan_a: OK = serialize_f32(f32::NAN.to_bits()).unwrap();
    let nan_b: OK = serialize_f32(0xFFC0_1234).unwrap();
    assert_eq!(nan_a, nan_b);
    assert_eq!(hash_of(&nan_a), hash_of(&nan_b));
    let nan_c: OK = serialize_f64(f64::NAN.to_bits()).unwrap();
    let nan_d: OK = serialize_f64(0x7FF8_0000_0000_0001).unwrap();
    assert_eq!(nan_c, nan_d);
    assert_eq!(hash_of(&nan_c), hash_of(&nan_d));
    let zero: OK = serialize_f64(0f64.to_bits()).unwrap();
    let neg_zero: OK = serialize_f64((-0f64).to_bits()).unwrap();
    assert!(neg_zero < zero);
    let in_map_a: OK = Key::Mapping(vec![(nan_a.clone(), nan_c.clone())]);
    let in_map_b: OK = Key::Mapping(vec![(nan_b.clone(), nan_d.clone())]);
    assert_eq!(in_map_a, in_map_b);
    assert_eq!(hash_of(&in_map_a), hash_of(&in_map_b));
    for a in &sample_keys() {
        let b = a.clone();
        assert_eq!(a, &b);
        assert_eq!(hash_of(a), hash_of(&b));
    }
}
