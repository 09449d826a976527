use fib_circuit::field::{Felt, Value, MODULUS};

#[test]
fn addition_reduces_modulo_the_prime() {
    let x = Felt { v: MODULUS - 1 };
    let one = Felt::one();
    assert_eq!(x.add(one).v, 0);
    assert_eq!(one.add(x).v, 0);
    assert_eq!(Felt { v: 2 }.add(Felt { v: 3 }).v, 5);
    assert_eq!(Felt::zero().add(x).v, MODULUS - 1);
}

#[test]
fn negation_and_multiplication() {
    assert_eq!(Felt::zero().neg().v, 0);
    assert_eq!(Felt::one().neg().v, MODULUS - 1);
    assert_eq!(Felt { v: 2 }.mul(Felt { v: 3 }).v, 6);
    // (-1) * (-1) = 1 in any field.
    let minus_one = Felt { v: MODULUS - 1 };
    assert_eq!(minus_one.mul(minus_one).v, 1);
    assert_eq!(Felt::from_u64(MODULUS).v, 0);
    assert_eq!(Felt::from_u64(MODULUS + 5).v, 5);
}

#[test]
fn unknown_propagates_through_arithmetic() {
    let k = Value::Known(Felt { v: 7 });
    assert_eq!(k.add(Value::Unknown), Value::Unknown);
    assert_eq!(Value::Unknown.add(k), Value::Unknown);
    assert_eq!(Value::Unknown.neg(), Value::Unknown);
    assert_eq!(Value::Unknown.mul(k), Value::Unknown);
    assert_eq!(k.add(Value::Known(Felt { v: 5 })), Value::Known(Felt { v: 12 }));
    assert!(k.is_known());
    assert!(!Value::Unknown.is_known());
    assert!(Value::Known(Felt { v: 0 }).is_known_zero());
    assert!(!k.is_known_zero());
    assert!(!Value::Unknown.is_known_zero());
}
