use pythonize::{pythonize, PyLong, PyValue, RustValue};

fn pystr(s: &str) -> PyValue {
    PyValue::Str(s.to_string())
}

fn pyint(x: i128) -> PyValue {
    PyValue::Int(PyLong::from_i128(x))
}

fn rstr(s: &str) -> RustValue {
    RustValue::Str(s.to_string())
}

fn named(name: &str, fields: Vec<(&str, RustValue)>) -> RustValue {
    RustValue::Struct(
        name.to_string(),
        fields.into_iter().map(|(k, v)| (k.to_string(), v)).collect(),
    )
}

#[test]
fn ser_test_empty_struct() {
    let actual = pythonize(&RustValue::UnitStruct("Empty".to_string())).unwrap();
    assert_eq!(actual, PyValue::Null);
}

#[test]
fn ser_test_struct() {
    let value = named("Struct", vec![("foo", rstr("foo")), ("bar", RustValue::U64(5))]);
    let actual = pythonize(&value).unwrap();
    let expected = PyValue::Dict(vec![(pystr("foo"), pystr("foo")), (pystr("bar"), pyint(5))]);
    assert_eq!(actual, expected);
}

#[test]
fn test_nested_struct() {
    let value = named(
        "Foo",
        vec![
            ("name", rstr("foo")),
            ("bar", named("Bar", vec![("name", rstr("bar"))])),
        ],
    );
    let actual = pythonize(&value).unwrap();
    let expected = PyValue::Dict(vec![
        (pystr("name"), pystr("foo")),
        (pystr("bar"), PyValue::Dict(vec![(pystr("name"), pystr("bar"))])),
    ]);
    assert_eq!(actual, expected);
}

#[test]
fn ser_test_tuple_struct() {
    let value = RustValue::TupleStruct(
        "TupleStruct".to_string(),
        vec![rstr("foo"), RustValue::U64(5)],
    );
    let actual = pythonize(&value).unwrap();
    assert_eq!(actual, PyValue::Tuple(vec![pystr("foo"), pyint(5)]));
}

#[test]
fn ser_test_tuple() {
    let value = RustValue::Tuple(vec![rstr("foo"), RustValue::U64(5)]);
    let actual = pythonize(&value).unwrap();
    assert_eq!(actual, PyValue::Tuple(vec![pystr("foo"), pyint(5)]));
}

#[test]
fn ser_test_vec() {
    let value = RustValue::Sequence(vec![
        RustValue::I32(1),
        RustValue::I32(2),
        RustValue::I32(3),
    ]);
    let actual = pythonize(&value).unwrap();
    assert_eq!(actual, PyValue::List(vec![pyint(1), pyint(2), pyint(3)]));
}

#[test]
fn test_map() {
    let value = RustValue::Mapping(vec![(rstr("foo"), rstr("foo"))]);
    let actual = pythonize(&value).unwrap();
    assert_eq!(actual, PyValue::Dict(vec![(pystr("foo"), pystr("foo"))]));
}

#[test]
fn test_enum_unit_variant() {
    let value = RustValue::UnitVariant("E".to_string(), "Empty".to_string());
    let actual = pythonize(&value).unwrap();
    assert_eq!(actual, pystr("Empty"));
}

#[test]
fn ser_test_enum_tuple_variant() {
    let value = RustValue::TupleVariant(
        "E".to_string(),
        "Tuple".to_string(),
        vec![RustValue::I32(5), rstr("foo")],
    );
    let actual = pythonize(&value).unwrap();
    let expected = PyValue::Dict(vec![(
        pystr("Tuple"),
        PyValue::Tuple(vec![pyint(5), pystr("foo")]),
    )]);
    assert_eq!(actual, expected);
}

#[test]
fn ser_test_enum_newtype_variant() {
    let value = RustValue::NewtypeVariant(
        "E".to_string(),
        "NewType".to_string(),
        Box::new(rstr("foo")),
    );
    let actual = pythonize(&value).unwrap();
    assert_eq!(actual, PyValue::Dict(vec![(pystr("NewType"), pystr("foo"))]));
}

#[test]
fn ser_test_enum_struct_variant() {
    let value = RustValue::StructVariant(
        "E".to_string(),
        "Struct".to_string(),
        vec![
            ("foo".to_string(), rstr("foo")),
            ("bar".to_string(), RustValue::U64(5)),
        ],
    );
    let actual = pythonize(&value).unwrap();
    let expected = PyValue::Dict(vec![(
        pystr("Struct"),
        PyValue::Dict(vec![(pystr("foo"), pystr("foo")), (pystr("bar"), pyint(5))]),
    )]);
    assert_eq!(actual, expected);
}

#[test]
fn test_integers() {
    let value = named(
        "Integers",
        vec![
            ("a", RustValue::I8(1)),
            ("b", RustValue::I16(2)),
            ("c", RustValue::I32(3)),
            ("d", RustValue::I64(4)),
            ("e", RustValue::U8(5)),
            ("f", RustValue::U16(6)),
            ("g", RustValue::U32(7)),
            ("h", RustValue::U64(8)),
        ],
    );
    let actual = pythonize(&value).unwrap();
    let expected = PyValue::Dict(vec![
        (pystr("a"), pyint(1)),
        (pystr("b"), pyint(2)),
        (pystr("c"), pyint(3)),
        (pystr("d"), pyint(4)),
        (pystr("e"), pyint(5)),
        (pystr("f"), pyint(6)),
        (pystr("g"), pyint(7)),
        (pystr("h"), pyint(8)),
    ]);
    assert_eq!(actual, expected);
}

#[test]
fn test_floats() {
    let value = named(
        "Floats",
        vec![
            ("a", RustValue::F32((1.0f32 as f64).to_bits())),
            ("b", RustValue::F64(2.0f64.to_bits())),
        ],
    );
    let actual = pythonize(&value).unwrap();
    let expected = PyValue::Dict(vec![
        (pystr("a"), PyValue::Float(1.0f64.to_bits())),
        (pystr("b"), PyValue::Float(2.0f64.to_bits())),
    ]);
    assert_eq!(actual, expected);
}

#[test]
fn ser_test_char() {
    let value = named("Char", vec![("a", RustValue::Char('a'))]);
    let actual = pythonize(&value).unwrap();
    assert_eq!(actual, PyValue::Dict(vec![(pystr("a"), pystr("a"))]));
}

#[test]
fn test_bool() {
    assert_eq!(pythonize(&RustValue::Bool(true)).unwrap(), PyValue::Bool(true));
    assert_eq!(
        pythonize(&RustValue::Bool(false)).unwrap(),
        PyValue::Bool(false)
    );
}

#[test]
fn test_none() {
    assert_eq!(pythonize(&RustValue::Unit).unwrap(), PyValue::Null);
    assert_eq!(
        pythonize(&RustValue::UnitStruct("S".to_string())).unwrap(),
        PyValue::Null
    );
    assert_eq!(
        pythonize(&RustValue::OptionSome(Box::new(RustValue::I32(1)))).unwrap(),
        pyint(1)
    );
    assert_eq!(pythonize(&RustValue::OptionNone).unwrap(), PyValue::Null);
}

#[test]
fn test_bytes() {
    // a plain byte slice is a sequence of integers to the generic framework
    let value = RustValue::Sequence(vec![
        RustValue::U8(102),
        RustValue::U8(111),
        RustValue::U8(111),
    ]);
    let actual = pythonize(&value).unwrap();
    assert_eq!(actual, PyValue::List(vec![pyint(102), pyint(111), pyint(111)]));

    // an explicit byte string becomes a dynamic bytes object
    let actual = pythonize(&RustValue::Bytes(b"foo".to_vec())).unwrap();
    assert_eq!(actual, PyValue::Bytes(b"foo".to_vec()));
}

#[test]
fn test_field_order_preserved() {
    let value = named(
        "S",
        vec![
            ("foo", RustValue::U8(1)),
            ("bar", RustValue::U8(2)),
            ("baz", RustValue::U8(3)),
        ],
    );
    let actual = pythonize(&value).unwrap();
    match actual {
        PyValue::Dict(entries) => {
            let keys: Vec<&PyValue> = entries.iter().map(|(k, _)| k).collect();
            assert_eq!(keys, vec![&pystr("foo"), &pystr("bar"), &pystr("baz")]);
        },
        other => panic!("expected a dict, got {:?}", other),
    }
}

#[test]
fn test_newtype_struct_transparent() {
    let value = RustValue::NewtypeStruct("Wrapper".to_string(), Box::new(rstr("inner")));
    assert_eq!(pythonize(&value).unwrap(), pystr("inner"));
}

#[test]
fn test_big_integers() {
    assert_eq!(
        pythonize(&RustValue::I128(i128::MIN)).unwrap(),
        PyValue::Int(PyLong::from_i128(i128::MIN))
    );
    assert_eq!(
        pythonize(&RustValue::U128(u128::MAX)).unwrap(),
        PyValue::Int(PyLong::from_u128(u128::MAX))
    );
}
