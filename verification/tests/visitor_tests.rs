use pythonize::error::{PyErrKind, PythonizeError};
use pythonize::{
    depythonize_as, pythonize, transcode, PyErr, PyLong, PyObjectVisitor, PyValue, RustValue,
    TypeShape, VariantShape,
};

fn pystr(s: &str) -> PyValue {
    PyValue::Str(s.to_string())
}

fn pyint(x: i128) -> PyValue {
    PyValue::Int(PyLong::from_i128(x))
}

fn sample() -> PyValue {
    PyValue::Dict(vec![
        (pystr("code"), pyint(200)),
        (pystr("success"), PyValue::Bool(true)),
        (
            pystr("payload"),
            PyValue::Dict(vec![
                (
                    pystr("features"),
                    PyValue::List(vec![pystr("serde"), pystr("json")]),
                ),
                (pystr("homepage"), PyValue::Null),
            ]),
        ),
    ])
}

#[test]
fn simple_test() {
    // a canonical object passes through the decode-encode pipeline unchanged
    let result = transcode(&sample()).unwrap();
    assert_eq!(result, sample());
}

#[test]
fn test_transcode_scalars() {
    for obj in [
        PyValue::Null,
        PyValue::Bool(false),
        pyint(0),
        pyint(-129),
        pyint(i128::MAX),
        PyValue::Float(2.5f64.to_bits()),
        pystr(""),
        PyValue::Bytes(vec![0, 255]),
        PyValue::List(vec![]),
        PyValue::Dict(vec![]),
    ] {
        let result = transcode(&obj).unwrap();
        assert_eq!(result, obj);
    }
}

#[test]
fn test_transcode_unsupported() {
    let obj = PyValue::Other("Decimal".to_string());
    assert!(transcode(&obj).is_err());
}

#[test]
fn test_visitor_builds_objects() {
    let v = PyObjectVisitor::new();
    assert_eq!(v.visit_bool(true), PyValue::Bool(true));
    assert_eq!(v.visit_i64(-5), pyint(-5));
    assert_eq!(v.visit_u64(5), pyint(5));
    assert_eq!(v.visit_none(), PyValue::Null);
    assert_eq!(v.visit_str("hi"), pystr("hi"));
    assert_eq!(
        v.visit_seq(vec![pyint(1), pyint(2)]),
        PyValue::List(vec![pyint(1), pyint(2)])
    );
    assert_eq!(
        v.visit_enum("Var", pyint(3)),
        PyValue::Dict(vec![(pystr("Var"), pyint(3))])
    );
}

#[test]
fn test_error_messages() {
    let e = PythonizeError::incorrect_sequence_length(2, 3);
    assert_eq!(e.message(), "expected sequence of length 2, got 3");
    let host = PyErr::from(e);
    assert_eq!(host.kind, PyErrKind::ValueError);

    let e = PythonizeError::dict_key_not_string();
    assert_eq!(e.message(), "dict keys must have type str");
    assert_eq!(PyErr::from(e).kind, PyErrKind::TypeError);

    let e = PythonizeError::unsupported_type("Decimal".to_string());
    assert_eq!(e.message(), "unsupported type Decimal");
    assert_eq!(PyErr::from(e).kind, PyErrKind::TypeError);

    let e = PythonizeError::invalid_length_enum();
    assert_eq!(e.message(), "expected tagged enum dict to have exactly 1 key");
    assert_eq!(PyErr::from(e).kind, PyErrKind::ValueError);

    let e = PythonizeError::invalid_enum_type();
    assert_eq!(e.message(), "expected either a str or dict for enum");
    assert_eq!(PyErr::from(e).kind, PyErrKind::TypeError);

    let e = PythonizeError::invalid_length_char();
    assert_eq!(e.message(), "expected a str of length 1 for char");
    assert_eq!(PyErr::from(e).kind, PyErrKind::ValueError);

    let e = PythonizeError::msg("missing field `bar`".to_string());
    assert_eq!(PyErr::from(e).kind, PyErrKind::Exception);

    let inner = PyErr {
        kind: PyErrKind::OverflowError,
        message: "out of range integral type conversion attempted".to_string(),
    };
    let e = PythonizeError::host(inner);
    let back = PyErr::from(e);
    assert_eq!(back.kind, PyErrKind::OverflowError);
    assert_eq!(back.message, "out of range integral type conversion attempted");
}

#[test]
fn test_typed_round_trip_values() {
    let cases: Vec<(TypeShape, RustValue)> = vec![
        (TypeShape::Bool, RustValue::Bool(true)),
        (TypeShape::I8, RustValue::I8(i8::MIN)),
        (TypeShape::U64, RustValue::U64(u64::MAX)),
        (TypeShape::I128, RustValue::I128(i128::MIN)),
        (TypeShape::Char, RustValue::Char('q')),
        (TypeShape::Str, RustValue::Str("round".to_string())),
        (TypeShape::Bytes, RustValue::Bytes(vec![1, 2, 3])),
        (
            TypeShape::Option(Box::new(TypeShape::U8)),
            RustValue::OptionSome(Box::new(RustValue::U8(9))),
        ),
        (
            TypeShape::Tuple(vec![TypeShape::Str, TypeShape::I32]),
            RustValue::Tuple(vec![
                RustValue::Str("cat".to_string()),
                RustValue::I32(-10),
            ]),
        ),
        (
            TypeShape::Mapping(Box::new(TypeShape::Str), Box::new(TypeShape::U8)),
            RustValue::Mapping(vec![(RustValue::Str("k".to_string()), RustValue::U8(1))]),
        ),
        (
            TypeShape::Enum(
                "Foo".to_string(),
                vec![(
                    "Tuple".to_string(),
                    VariantShape::Tuple(vec![TypeShape::I32, TypeShape::Str]),
                )],
            ),
            RustValue::TupleVariant(
                "Foo".to_string(),
                "Tuple".to_string(),
                vec![RustValue::I32(12), RustValue::Str("cat".to_string())],
            ),
        ),
        (
            TypeShape::Struct(
                "S".to_string(),
                vec![
                    ("foo".to_string(), TypeShape::Str),
                    ("bar".to_string(), TypeShape::U64),
                ],
            ),
            RustValue::Struct(
                "S".to_string(),
                vec![
                    ("foo".to_string(), RustValue::Str("Foo".to_string())),
                    ("bar".to_string(), RustValue::U64(8)),
                ],
            ),
        ),
    ];
    for (shape, value) in cases {
        let encoded = pythonize(&value).unwrap();
        let decoded = depythonize_as(&shape, &encoded).unwrap();
        assert_eq!(decoded, value);
    }
}
