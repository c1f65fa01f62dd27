use pythonize::{depythonize, pythonize, PyLong, PyValue, RustValue};

#[test]
fn test_greater_than_u64_max() {
    // 2^64 == 18446744073709551616 is past the largest u64
    let value = RustValue::U128(u64::MAX as u128 + 1);
    let result = pythonize(&value).unwrap();
    let expected = PyValue::Int(PyLong::from_u128(u64::MAX as u128 + 1));
    assert!(matches!(result, PyValue::Int(_)));
    assert_eq!(result, expected);
}

#[test]
fn test_less_than_i64_min() {
    // -9223372036854775809 is just below the smallest i64
    let value = RustValue::I128(i64::MIN as i128 - 1);
    let result = pythonize(&value).unwrap();
    let expected = PyValue::Int(PyLong::from_i128(i64::MIN as i128 - 1));
    assert!(matches!(result, PyValue::Int(_)));
    assert_eq!(result, expected);
}

#[test]
fn test_float() {
    let bits = 3.141592653589793238f64.to_bits();
    let result = pythonize(&RustValue::F64(bits)).unwrap();
    assert!(matches!(result, PyValue::Float(_)));
    match result {
        PyValue::Float(b) => {
            let num = f64::from_bits(b) as f32;
            assert_eq!(num, 3.141592653589793238);
        },
        _ => unreachable!(),
    }
}

#[test]
fn test_int() {
    let result = pythonize(&RustValue::I32(2)).unwrap();
    assert!(matches!(result, PyValue::Int(_)));
    assert_eq!(result, PyValue::Int(PyLong::from_i128(2)));
}

#[test]
fn test_depythonize_greater_than_u128_max() {
    // 2^128 == 340282366920938463463374607431768211456 == u128::MAX + 1:
    // one leading byte followed by sixteen zero bytes
    let mut mag: Vec<u8> = vec![1];
    mag.extend(std::iter::repeat(0u8).take(16));
    let big = PyLong { neg: false, mag };
    let obj = PyValue::Int(PyLong { neg: big.neg, mag: big.mag.clone() });

    let value = depythonize(&obj).unwrap();
    match value {
        RustValue::BigInt(l) => assert_eq!(l, big),
        other => panic!("expected an arbitrary-precision integer, got {:?}", other),
    }

    // re-encoding keeps the value
    let back = pythonize(&depythonize(&obj).unwrap()).unwrap();
    assert_eq!(back, obj);
}

#[test]
fn test_long_boundaries() {
    for x in [0u128, 1, 255, 256, u64::MAX as u128, u64::MAX as u128 + 1, u128::MAX] {
        let l = PyLong::from_u128(x);
        assert_eq!(l.try_to_u128(), Some(x));
    }
    for x in [0i128, -1, i8::MIN as i128, i64::MIN as i128, i128::MIN, i128::MAX] {
        let l = PyLong::from_i128(x);
        assert_eq!(l.try_to_i128(), Some(x));
    }
    // the magnitude of i128::MIN does not fit an i128
    let mut mag: Vec<u8> = vec![0x80];
    mag.extend(std::iter::repeat(0u8).take(15));
    let too_big = PyLong { neg: false, mag };
    assert_eq!(too_big.try_to_i128(), None);
    assert_eq!(too_big.try_to_u128(), Some(1u128 << 127));
}
