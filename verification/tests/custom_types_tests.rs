use pythonize::{
    depythonize, pythonize_custom, PyLong, PyValue, Pythonizer, PythonizeDefault,
    PythonizeListType, PythonizeMappingType, PythonizeNamedMappingType, PythonizeTypes,
    RustValue,
};

fn pystr(s: &str) -> PyValue {
    PyValue::Str(s.to_string())
}

fn pyint(x: i128) -> PyValue {
    PyValue::Int(PyLong::from_i128(x))
}

fn custom_list_types() -> PythonizeTypes {
    PythonizeTypes {
        map: PythonizeMappingType::Dict,
        named_map: PythonizeNamedMappingType::PythonizeUnnamedMappingAdapter(
            PythonizeMappingType::Dict,
        ),
        list: PythonizeListType::CustomSequence,
    }
}

fn custom_dict_types() -> PythonizeTypes {
    PythonizeTypes {
        map: PythonizeMappingType::CustomMapping,
        named_map: PythonizeNamedMappingType::PythonizeUnnamedMappingAdapter(
            PythonizeMappingType::CustomMapping,
        ),
        list: PythonizeListType::Tuple,
    }
}

fn named_custom_dict_types() -> PythonizeTypes {
    PythonizeTypes {
        map: PythonizeMappingType::CustomMapping,
        named_map: PythonizeNamedMappingType::CustomNamed,
        list: PythonizeListType::Tuple,
    }
}

fn sample_seq() -> RustValue {
    RustValue::Sequence(vec![RustValue::U8(1), RustValue::U8(2), RustValue::U8(3)])
}

#[test]
fn test_custom_list() {
    let serialized = pythonize_custom(custom_list_types(), &sample_seq()).unwrap();
    assert!(matches!(serialized, PyValue::Sequence(_)));

    let deserialized = depythonize(&serialized).unwrap();
    assert_eq!(deserialized, sample_seq());
}

#[test]
fn test_custom_dict() {
    let value = RustValue::Mapping(vec![
        (RustValue::Str("hello".to_string()), RustValue::U8(1)),
        (RustValue::Str("world".to_string()), RustValue::U8(2)),
    ]);
    let serialized = pythonize_custom(custom_dict_types(), &value).unwrap();
    assert!(matches!(serialized, PyValue::Mapping(_)));

    let deserialized = depythonize(&serialized).unwrap();
    assert_eq!(deserialized, value);
}

#[test]
fn test_custom_types_test_tuple() {
    let value = RustValue::Sequence(vec![
        RustValue::U8(1),
        RustValue::U8(2),
        RustValue::U8(3),
        RustValue::U8(4),
    ]);
    let serialized = pythonize_custom(custom_dict_types(), &value).unwrap();
    assert!(matches!(serialized, PyValue::Tuple(_)));

    let deserialized = depythonize(&serialized).unwrap();
    assert_eq!(deserialized, value);
}

#[test]
fn test_pythonizer_can_be_created() {
    let sample = RustValue::Mapping(vec![
        (RustValue::Str("hello".to_string()), RustValue::U8(1)),
        (RustValue::Str("world".to_string()), RustValue::U8(2)),
    ]);

    let default_encoder = Pythonizer::new();
    assert_eq!(default_encoder.types, PythonizeDefault::types());
    let serialized = pythonize_custom(default_encoder.types, &sample).unwrap();
    assert!(matches!(serialized, PyValue::Dict(_)));

    let custom_encoder = Pythonizer::custom(custom_dict_types());
    let serialized = pythonize_custom(custom_encoder.types, &sample).unwrap();
    assert!(matches!(serialized, PyValue::Mapping(_)));
}

#[test]
fn test_custom_unnamed_dict() {
    let value = RustValue::Struct(
        "Struct".to_string(),
        vec![
            ("hello".to_string(), RustValue::U8(1)),
            ("world".to_string(), RustValue::I8(2)),
        ],
    );
    let serialized = pythonize_custom(custom_dict_types(), &value).unwrap();
    assert!(matches!(serialized, PyValue::Mapping(_)));

    let deserialized = depythonize(&serialized).unwrap();
    assert_eq!(
        deserialized,
        RustValue::Mapping(vec![
            (RustValue::Str("hello".to_string()), RustValue::U8(1)),
            (RustValue::Str("world".to_string()), RustValue::U8(2)),
        ])
    );
}

#[test]
fn test_custom_named_dict() {
    let value = RustValue::Struct(
        "Struct".to_string(),
        vec![
            ("hello".to_string(), RustValue::U8(1)),
            ("world".to_string(), RustValue::I8(2)),
        ],
    );
    let serialized = pythonize_custom(named_custom_dict_types(), &value).unwrap();
    match &serialized {
        PyValue::NamedMapping(name, entries) => {
            assert_eq!(name, "Struct");
            assert_eq!(entries.len(), 2);
            assert_eq!(entries[0], (pystr("hello"), pyint(1)));
            assert_eq!(entries[1], (pystr("world"), pyint(2)));
        },
        other => panic!("expected a named mapping, got {:?}", other),
    }

    let deserialized = depythonize(&serialized).unwrap();
    assert_eq!(
        deserialized,
        RustValue::Mapping(vec![
            (RustValue::Str("hello".to_string()), RustValue::U8(1)),
            (RustValue::Str("world".to_string()), RustValue::U8(2)),
        ])
    );
}
