use pythonize::{depythonize_as, pythonize, ErrorImpl, PyLong, PyValue, RustValue, TypeShape};

fn pystr(s: &str) -> PyValue {
    PyValue::Str(s.to_string())
}

fn rstr(s: &str) -> RustValue {
    RustValue::Str(s.to_string())
}

fn root_shape() -> TypeShape {
    let nested = TypeShape::Struct(
        "Nested".to_string(),
        vec![("nested_key".to_string(), TypeShape::Str)],
    );
    TypeShape::Struct(
        "Root".to_string(),
        vec![
            ("root_key".to_string(), TypeShape::Str),
            (
                "root_map".to_string(),
                TypeShape::Mapping(Box::new(TypeShape::Str), Box::new(nested)),
            ),
        ],
    )
}

fn nested_value(key: &str) -> RustValue {
    RustValue::Struct(
        "Nested".to_string(),
        vec![("nested_key".to_string(), rstr(key))],
    )
}

fn root_value() -> RustValue {
    RustValue::Struct(
        "Root".to_string(),
        vec![
            ("root_key".to_string(), rstr("root_value")),
            (
                "root_map".to_string(),
                RustValue::Mapping(vec![
                    (rstr("nested_0"), nested_value("nested_value_0")),
                    (rstr("nested_1"), nested_value("nested_value_1")),
                ]),
            ),
        ],
    )
}

fn nested_dict(key_value: PyValue) -> PyValue {
    PyValue::Dict(vec![(pystr("nested_key"), key_value)])
}

#[test]
fn test_de_valid() {
    let pyroot = PyValue::Dict(vec![
        (pystr("root_key"), pystr("root_value")),
        (
            pystr("root_map"),
            PyValue::Dict(vec![
                (pystr("nested_0"), nested_dict(pystr("nested_value_0"))),
                (pystr("nested_1"), nested_dict(pystr("nested_value_1"))),
            ]),
        ),
    ]);
    let root = depythonize_as(&root_shape(), &pyroot).unwrap();
    assert_eq!(root, root_value());
}

#[test]
fn test_de_invalid() {
    let pyroot = PyValue::Dict(vec![
        (pystr("root_key"), pystr("root_value")),
        (
            pystr("root_map"),
            PyValue::Dict(vec![
                (pystr("nested_0"), nested_dict(pystr("nested_value_0"))),
                (
                    pystr("nested_1"),
                    nested_dict(PyValue::Int(PyLong::from_i128(1))),
                ),
            ]),
        ),
    ]);
    let err = depythonize_as(&root_shape(), &pyroot).unwrap_err();
    assert!(matches!(
        *err.inner,
        ErrorImpl::UnexpectedType(kind) if kind == "int"
    ));
}

#[test]
fn test_ser_valid() {
    let obj = pythonize(&root_value()).unwrap();
    let expected = PyValue::Dict(vec![
        (pystr("root_key"), pystr("root_value")),
        (
            pystr("root_map"),
            PyValue::Dict(vec![
                (pystr("nested_0"), nested_dict(pystr("nested_value_0"))),
                (pystr("nested_1"), nested_dict(pystr("nested_value_1"))),
            ]),
        ),
    ]);
    assert_eq!(obj, expected);
}
