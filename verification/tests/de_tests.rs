use pythonize::{depythonize, depythonize_as, ErrorImpl, PyLong, PyValue, RustValue, TypeShape, VariantShape};

fn pystr(s: &str) -> PyValue {
    PyValue::Str(s.to_string())
}

fn pyint(x: i128) -> PyValue {
    PyValue::Int(PyLong::from_i128(x))
}

fn pyfloat(x: f64) -> PyValue {
    PyValue::Float(x.to_bits())
}

fn field(name: &str, shape: TypeShape) -> (String, TypeShape) {
    (name.to_string(), shape)
}

fn struct_shape(name: &str, fields: Vec<(String, TypeShape)>) -> TypeShape {
    TypeShape::Struct(name.to_string(), fields)
}

fn enum_shape(name: &str, variants: Vec<(String, VariantShape)>) -> TypeShape {
    TypeShape::Enum(name.to_string(), variants)
}

fn rstr(s: &str) -> RustValue {
    RustValue::Str(s.to_string())
}

#[test]
fn de_test_empty_struct() {
    let shape = TypeShape::UnitStruct("Empty".to_string());
    let obj = PyValue::Null;
    let actual = depythonize_as(&shape, &obj).unwrap();
    assert_eq!(actual, RustValue::UnitStruct("Empty".to_string()));
    // an untyped decode of the same object sees the unit
    assert_eq!(depythonize(&obj).unwrap(), RustValue::Unit);
}

#[test]
fn de_test_struct() {
    let shape = struct_shape(
        "Struct",
        vec![
            field("foo", TypeShape::Str),
            field("bar", TypeShape::U64),
            field("baz", TypeShape::F32),
            field("qux", TypeShape::Bool),
        ],
    );
    let obj = PyValue::Dict(vec![
        (pystr("foo"), pystr("Foo")),
        (pystr("bar"), pyint(8)),
        (pystr("baz"), pyfloat(45.23f32 as f64)),
        (pystr("qux"), PyValue::Bool(true)),
    ]);
    let actual = depythonize_as(&shape, &obj).unwrap();
    let expected = RustValue::Struct(
        "Struct".to_string(),
        vec![
            ("foo".to_string(), rstr("Foo")),
            ("bar".to_string(), RustValue::U64(8)),
            ("baz".to_string(), RustValue::F32((45.23f32 as f64).to_bits())),
            ("qux".to_string(), RustValue::Bool(true)),
        ],
    );
    assert_eq!(actual, expected);
}

#[test]
fn test_struct_missing_key() {
    let shape = struct_shape(
        "Struct",
        vec![field("foo", TypeShape::Str), field("bar", TypeShape::U64)],
    );
    let obj = PyValue::Dict(vec![(pystr("foo"), pystr("Foo"))]);
    let err = depythonize_as(&shape, &obj).unwrap_err();
    assert!(matches!(
        *err.inner,
        ErrorImpl::Message(msg) if msg == "missing field `bar`"
    ));
}

#[test]
fn de_test_tuple_struct() {
    let shape = TypeShape::TupleStruct(
        "TupleStruct".to_string(),
        vec![TypeShape::Str, TypeShape::F64],
    );
    let obj = PyValue::Tuple(vec![pystr("cat"), pyfloat(-10.05)]);
    let actual = depythonize_as(&shape, &obj).unwrap();
    let expected = RustValue::TupleStruct(
        "TupleStruct".to_string(),
        vec![rstr("cat"), RustValue::F64((-10.05f64).to_bits())],
    );
    assert_eq!(actual, expected);
}

#[test]
fn test_tuple_too_long() {
    let shape = TypeShape::TupleStruct(
        "TupleStruct".to_string(),
        vec![TypeShape::Str, TypeShape::F64],
    );
    let obj = PyValue::Tuple(vec![pystr("cat"), pyfloat(-10.05), pystr("foo")]);
    let err = depythonize_as(&shape, &obj).unwrap_err();
    assert!(matches!(
        *err.inner,
        ErrorImpl::IncorrectSequenceLength { expected, got } if expected == 2 && got == 3
    ));
}

#[test]
fn test_tuple_struct_from_pylist() {
    let shape = TypeShape::TupleStruct(
        "TupleStruct".to_string(),
        vec![TypeShape::Str, TypeShape::F64],
    );
    let obj = PyValue::List(vec![pystr("cat"), pyfloat(-10.05)]);
    let actual = depythonize_as(&shape, &obj).unwrap();
    let expected = RustValue::TupleStruct(
        "TupleStruct".to_string(),
        vec![rstr("cat"), RustValue::F64((-10.05f64).to_bits())],
    );
    assert_eq!(actual, expected);
}

#[test]
fn de_test_tuple() {
    let shape = TypeShape::Tuple(vec![TypeShape::Str, TypeShape::I32]);
    let obj = PyValue::Tuple(vec![pystr("foo"), pyint(5)]);
    let actual = depythonize_as(&shape, &obj).unwrap();
    assert_eq!(actual, RustValue::Tuple(vec![rstr("foo"), RustValue::I32(5)]));
}

#[test]
fn test_tuple_from_pylist() {
    let shape = TypeShape::Tuple(vec![TypeShape::Str, TypeShape::I32]);
    let obj = PyValue::List(vec![pystr("foo"), pyint(5)]);
    let actual = depythonize_as(&shape, &obj).unwrap();
    assert_eq!(actual, RustValue::Tuple(vec![rstr("foo"), RustValue::I32(5)]));
}

#[test]
fn test_vec_from_pyset() {
    let shape = TypeShape::Sequence(Box::new(TypeShape::Str));
    let obj = PyValue::PySet(vec![pystr("foo")]);
    let actual = depythonize_as(&shape, &obj).unwrap();
    assert_eq!(actual, RustValue::Sequence(vec![rstr("foo")]));
}

#[test]
fn test_vec_from_pyfrozenset() {
    let shape = TypeShape::Sequence(Box::new(TypeShape::Str));
    let obj = PyValue::FrozenSet(vec![pystr("foo")]);
    let actual = depythonize_as(&shape, &obj).unwrap();
    assert_eq!(actual, RustValue::Sequence(vec![rstr("foo")]));
}

#[test]
fn de_test_vec() {
    let shape = TypeShape::Sequence(Box::new(TypeShape::I32));
    let obj = PyValue::List(vec![pyint(3), pyint(2), pyint(1)]);
    let actual = depythonize_as(&shape, &obj).unwrap();
    assert_eq!(
        actual,
        RustValue::Sequence(vec![RustValue::I32(3), RustValue::I32(2), RustValue::I32(1)])
    );
}

#[test]
fn test_vec_from_tuple() {
    let shape = TypeShape::Sequence(Box::new(TypeShape::I32));
    let obj = PyValue::Tuple(vec![pyint(3), pyint(2), pyint(1)]);
    let actual = depythonize_as(&shape, &obj).unwrap();
    assert_eq!(
        actual,
        RustValue::Sequence(vec![RustValue::I32(3), RustValue::I32(2), RustValue::I32(1)])
    );
}

#[test]
fn test_hashmap() {
    let shape = TypeShape::Mapping(Box::new(TypeShape::Str), Box::new(TypeShape::I32));
    let obj = PyValue::Dict(vec![(pystr("foo"), pyint(4))]);
    let actual = depythonize_as(&shape, &obj).unwrap();
    assert_eq!(
        actual,
        RustValue::Mapping(vec![(rstr("foo"), RustValue::I32(4))])
    );
}

#[test]
fn test_enum_variant() {
    let shape = enum_shape("Foo", vec![("Variant".to_string(), VariantShape::Unit)]);
    let obj = pystr("Variant");
    let actual = depythonize_as(&shape, &obj).unwrap();
    assert_eq!(
        actual,
        RustValue::UnitVariant("Foo".to_string(), "Variant".to_string())
    );
}

#[test]
fn de_test_enum_tuple_variant() {
    let shape = enum_shape(
        "Foo",
        vec![(
            "Tuple".to_string(),
            VariantShape::Tuple(vec![TypeShape::I32, TypeShape::Str]),
        )],
    );
    let obj = PyValue::Dict(vec![(
        pystr("Tuple"),
        PyValue::List(vec![pyint(12), pystr("cat")]),
    )]);
    let actual = depythonize_as(&shape, &obj).unwrap();
    assert_eq!(
        actual,
        RustValue::TupleVariant(
            "Foo".to_string(),
            "Tuple".to_string(),
            vec![RustValue::I32(12), rstr("cat")]
        )
    );
}

#[test]
fn de_test_enum_newtype_variant() {
    let shape = enum_shape(
        "Foo",
        vec![(
            "NewType".to_string(),
            VariantShape::Newtype(Box::new(TypeShape::Str)),
        )],
    );
    let obj = PyValue::Dict(vec![(pystr("NewType"), pystr("cat"))]);
    let actual = depythonize_as(&shape, &obj).unwrap();
    assert_eq!(
        actual,
        RustValue::NewtypeVariant(
            "Foo".to_string(),
            "NewType".to_string(),
            Box::new(rstr("cat"))
        )
    );
}

#[test]
fn de_test_enum_struct_variant() {
    let shape = enum_shape(
        "Foo",
        vec![(
            "Struct".to_string(),
            VariantShape::Struct(vec![
                field("foo", TypeShape::Str),
                field("bar", TypeShape::U64),
            ]),
        )],
    );
    let obj = PyValue::Dict(vec![(
        pystr("Struct"),
        PyValue::Dict(vec![(pystr("foo"), pystr("cat")), (pystr("bar"), pyint(25))]),
    )]);
    let actual = depythonize_as(&shape, &obj).unwrap();
    assert_eq!(
        actual,
        RustValue::StructVariant(
            "Foo".to_string(),
            "Struct".to_string(),
            vec![
                ("foo".to_string(), rstr("cat")),
                ("bar".to_string(), RustValue::U64(25)),
            ]
        )
    );
}

#[test]
fn test_nested_type() {
    let baz = enum_shape(
        "Baz",
        vec![
            ("Basic".to_string(), VariantShape::Unit),
            (
                "Tuple".to_string(),
                VariantShape::Tuple(vec![TypeShape::F32, TypeShape::U32]),
            ),
        ],
    );
    let bar = struct_shape(
        "Bar",
        vec![field("value", TypeShape::U64), field("variant", baz)],
    );
    let shape = struct_shape("Foo", vec![field("name", TypeShape::Str), field("bar", bar)]);

    let obj = PyValue::Dict(vec![
        (pystr("name"), pystr("SomeFoo")),
        (
            pystr("bar"),
            PyValue::Dict(vec![
                (pystr("value"), pyint(13)),
                (
                    pystr("variant"),
                    PyValue::Dict(vec![(
                        pystr("Tuple"),
                        PyValue::List(vec![pyfloat(-1.5f32 as f64), pyint(8)]),
                    )]),
                ),
            ]),
        ),
    ]);
    let actual = depythonize_as(&shape, &obj).unwrap();
    let expected = RustValue::Struct(
        "Foo".to_string(),
        vec![
            ("name".to_string(), rstr("SomeFoo")),
            (
                "bar".to_string(),
                RustValue::Struct(
                    "Bar".to_string(),
                    vec![
                        ("value".to_string(), RustValue::U64(13)),
                        (
                            "variant".to_string(),
                            RustValue::TupleVariant(
                                "Baz".to_string(),
                                "Tuple".to_string(),
                                vec![
                                    RustValue::F32((-1.5f32 as f64).to_bits()),
                                    RustValue::U32(8),
                                ],
                            ),
                        ),
                    ],
                ),
            ),
        ],
    );
    assert_eq!(actual, expected);
}

#[test]
fn test_int_limits() {
    // untyped decoding picks a width that holds each boundary value
    assert!(depythonize(&pyint(u8::MAX as i128)).is_ok());
    assert!(depythonize(&pyint(u8::MIN as i128)).is_ok());
    assert!(depythonize(&pyint(i8::MAX as i128)).is_ok());
    assert!(depythonize(&pyint(i8::MIN as i128)).is_ok());

    assert!(depythonize(&pyint(u16::MAX as i128)).is_ok());
    assert!(depythonize(&pyint(i16::MAX as i128)).is_ok());
    assert!(depythonize(&pyint(i16::MIN as i128)).is_ok());

    assert!(depythonize(&pyint(u32::MAX as i128)).is_ok());
    assert!(depythonize(&pyint(i32::MAX as i128)).is_ok());
    assert!(depythonize(&pyint(i32::MIN as i128)).is_ok());

    assert!(depythonize(&pyint(u64::MAX as i128)).is_ok());
    assert!(depythonize(&pyint(i64::MAX as i128)).is_ok());
    assert!(depythonize(&pyint(i64::MIN as i128)).is_ok());

    let max = PyValue::Int(PyLong::from_u128(u128::MAX));
    assert_eq!(
        depythonize_as(&TypeShape::U128, &max).unwrap(),
        RustValue::U128(u128::MAX)
    );
    assert_eq!(
        depythonize_as(&TypeShape::I128, &pyint(0)).unwrap(),
        RustValue::I128(0)
    );
    assert_eq!(
        depythonize_as(&TypeShape::I128, &pyint(i128::MAX)).unwrap(),
        RustValue::I128(i128::MAX)
    );
    assert_eq!(
        depythonize_as(&TypeShape::I128, &pyint(i128::MIN)).unwrap(),
        RustValue::I128(i128::MIN)
    );
}

#[test]
fn test_deserialize_bytes() {
    let obj = PyValue::Bytes(b"hello".to_vec());
    let actual = depythonize_as(&TypeShape::Bytes, &obj).unwrap();
    assert_eq!(actual, RustValue::Bytes(b"hello".to_vec()));
}

#[test]
fn de_test_char() {
    let actual = depythonize_as(&TypeShape::Char, &pystr("a")).unwrap();
    assert_eq!(actual, RustValue::Char('a'));
}

#[test]
fn test_unknown_type() {
    let obj = PyValue::Other("Decimal".to_string());
    let err = depythonize(&obj).unwrap_err();
    assert!(matches!(
        *err.inner,
        ErrorImpl::UnsupportedType(name) if name == "Decimal"
    ));
}

#[test]
fn test_dict_key_not_string() {
    let shape = struct_shape("S", vec![field("foo", TypeShape::Str)]);
    let obj = PyValue::Dict(vec![(pyint(1), pystr("Foo"))]);
    let err = depythonize_as(&shape, &obj).unwrap_err();
    assert!(matches!(*err.inner, ErrorImpl::DictKeyNotString));
}

#[test]
fn test_width_selection() {
    assert_eq!(depythonize(&pyint(255)).unwrap(), RustValue::U8(255));
    assert_eq!(depythonize(&pyint(256)).unwrap(), RustValue::U16(256));
    assert_eq!(depythonize(&pyint(-1)).unwrap(), RustValue::I8(-1));
    assert_eq!(
        depythonize(&pyint(65536)).unwrap(),
        RustValue::U32(65536)
    );
    assert_eq!(
        depythonize(&pyint(u64::MAX as i128 + 1)).unwrap(),
        RustValue::U128(u64::MAX as u128 + 1)
    );
    assert_eq!(
        depythonize(&pyint(i64::MIN as i128 - 1)).unwrap(),
        RustValue::I128(i64::MIN as i128 - 1)
    );
}

#[test]
fn test_option_decode() {
    let shape = TypeShape::Option(Box::new(TypeShape::I32));
    assert_eq!(
        depythonize_as(&shape, &PyValue::Null).unwrap(),
        RustValue::OptionNone
    );
    assert_eq!(
        depythonize_as(&shape, &pyint(7)).unwrap(),
        RustValue::OptionSome(Box::new(RustValue::I32(7)))
    );
}

#[test]
fn test_char_wrong_length() {
    let err = depythonize_as(&TypeShape::Char, &pystr("ab")).unwrap_err();
    assert!(matches!(*err.inner, ErrorImpl::InvalidLengthChar));
}

#[test]
fn test_enum_multi_key_mapping() {
    let shape = enum_shape("Foo", vec![("A".to_string(), VariantShape::Unit)]);
    let obj = PyValue::Dict(vec![
        (pystr("A"), PyValue::Null),
        (pystr("B"), PyValue::Null),
    ]);
    let err = depythonize_as(&shape, &obj).unwrap_err();
    assert!(matches!(*err.inner, ErrorImpl::InvalidLengthEnum));
}

#[test]
fn test_enum_wrong_kind() {
    let shape = enum_shape("Foo", vec![("A".to_string(), VariantShape::Unit)]);
    let err = depythonize_as(&shape, &pyint(3)).unwrap_err();
    assert!(matches!(*err.inner, ErrorImpl::InvalidEnumType));
}

#[test]
fn test_enum_non_string_key() {
    let shape = enum_shape("Foo", vec![("A".to_string(), VariantShape::Unit)]);
    let obj = PyValue::Dict(vec![(pyint(1), PyValue::Null)]);
    let err = depythonize_as(&shape, &obj).unwrap_err();
    assert!(matches!(*err.inner, ErrorImpl::DictKeyNotString));
}

#[test]
fn test_out_of_range_int() {
    let err = depythonize_as(&TypeShape::U8, &pyint(256)).unwrap_err();
    assert!(matches!(
        *err.inner,
        ErrorImpl::PyErr(e) if e.kind == pythonize::error::PyErrKind::OverflowError
    ));
}

#[test]
fn test_bool_truthiness() {
    assert_eq!(
        depythonize_as(&TypeShape::Bool, &PyValue::Null).unwrap(),
        RustValue::Bool(false)
    );
    assert_eq!(
        depythonize_as(&TypeShape::Bool, &pyint(0)).unwrap(),
        RustValue::Bool(false)
    );
    assert_eq!(
        depythonize_as(&TypeShape::Bool, &pystr("")).unwrap(),
        RustValue::Bool(false)
    );
    assert_eq!(
        depythonize_as(&TypeShape::Bool, &pystr("x")).unwrap(),
        RustValue::Bool(true)
    );
    assert_eq!(
        depythonize_as(&TypeShape::Bool, &PyValue::List(vec![])).unwrap(),
        RustValue::Bool(false)
    );
}
