//! Typed decoding: a reified target type drives the decoder, standing in
//! for the generic deserialization framework's compile-time dispatch.  A
//! [`TypeShape`] names, for one static type, which extraction method the
//! framework would call at every position; [`depythonize_as`] walks a
//! dynamic object under a shape exactly as the framework's generated code
//! walks it: structs match field names in mapping order and report the first
//! missing field in declaration order, enums go through the two tagged
//! forms, tuples enforce their arity.
use vstd::prelude::*;
use vstd::string::*;

use crate::de::{
    dec_view, kind_name, mapping_entries, seq_fallback_items, sequence_items, spec_any,
    spec_enum_access, spec_extract_int, truthy, float_type_err, Depythonizer,
};
use crate::error::{PythonizeError, SErr};
use crate::value::{
    lemma_pv_entries, lemma_pv_seq, lemma_rv_bool, lemma_rv_bytes, lemma_rv_char, lemma_rv_entries,
    lemma_rv_f32, lemma_rv_f64, lemma_rv_fields, lemma_rv_seq, lemma_rv_str, lemma_rv_unit,
    lemma_rv_unit_struct, pv,
    pv_entries, pv_entries_wf, pv_seq, pv_seq_wf, pv_wf, rv, rv_entries, rv_entries_wf, rv_fields,
    rv_fields_wf, rv_seq, rv_seq_wf, rv_wf, PyVal, PyValue, RVal, RustValue,
};

verus! {

/// The shape of a static target type: one constructor per extraction
/// strategy of the deserialization contract.
#[derive(Debug)]
pub enum TypeShape {
    Bool,
    I8,
    I16,
    I32,
    I64,
    I128,
    U8,
    U16,
    U32,
    U64,
    U128,
    F32,
    F64,
    Char,
    Str,
    Bytes,
    Option(Box<TypeShape>),
    Unit,
    UnitStruct(String),
    NewtypeStruct(String, Box<TypeShape>),
    Sequence(Box<TypeShape>),
    Tuple(Vec<TypeShape>),
    TupleStruct(String, Vec<TypeShape>),
    Mapping(Box<TypeShape>, Box<TypeShape>),
    Struct(String, Vec<(String, TypeShape)>),
    Enum(String, Vec<(String, VariantShape)>),
    Ignored,
    Any,
}

/// The payload shape of one enum variant.
#[derive(Debug)]
pub enum VariantShape {
    Unit,
    Newtype(Box<TypeShape>),
    Tuple(Vec<TypeShape>),
    Struct(Vec<(String, TypeShape)>),
}

/// The index of the first field with the given name, if any.
pub open spec fn field_index(fields: Seq<(String, TypeShape)>, name: Seq<char>) -> Option<int>
    decreases fields.len(),
{
    if fields.len() == 0 {
        None
    } else if fields[0].0@ == name {
        Some(0int)
    } else {
        match field_index(fields.drop_first(), name) {
            Some(i) => Some(i + 1),
            None => None,
        }
    }
}

/// The index of the first variant with the given name, if any.
pub open spec fn variant_index(
    variants: Seq<(String, VariantShape)>,
    name: Seq<char>,
) -> Option<int>
    decreases variants.len(),
{
    if variants.len() == 0 {
        None
    } else if variants[0].0@ == name {
        Some(0int)
    } else {
        match variant_index(variants.drop_first(), name) {
            Some(i) => Some(i + 1),
            None => None,
        }
    }
}

pub proof fn lemma_field_index_bounds(fields: Seq<(String, TypeShape)>, name: Seq<char>)
    ensures
        field_index(fields, name) matches Some(i) ==> 0 <= i < fields.len(),
    decreases fields.len(),
{
    if fields.len() > 0 && fields[0].0@ != name {
        lemma_field_index_bounds(fields.drop_first(), name);
    }
}

pub proof fn lemma_variant_index_bounds(variants: Seq<(String, VariantShape)>, name: Seq<char>)
    ensures
        variant_index(variants, name) matches Some(i) ==> 0 <= i < variants.len(),
    decreases variants.len(),
{
    if variants.len() > 0 && variants[0].0@ != name {
        lemma_variant_index_bounds(variants.drop_first(), name);
    }
}

/// The missing-field error for one field name.
pub open spec fn missing_field_err(name: Seq<char>) -> SErr {
    SErr::Message("missing field `"@ + name + "`"@)
}

/// The duplicate-field error for one field name.
pub open spec fn duplicate_field_err(name: Seq<char>) -> SErr {
    SErr::Message("duplicate field `"@ + name + "`"@)
}

/// The unknown-variant error for one variant name.
pub open spec fn unknown_variant_err(name: Seq<char>) -> SErr {
    SErr::Message("unknown variant `"@ + name + "`"@)
}

/// What typed decoding produces for a target shape against a dynamic
/// object: the extraction rule of the matching visitor method.
pub open spec fn spec_decode(shape: TypeShape, p: PyVal) -> Result<RVal, SErr>
    decreases shape, 1int, 0int,
    via spec_decode_dec
{
    match shape {
        TypeShape::Bool => Ok(RVal::Bool(truthy(p))),
        TypeShape::I8 => match spec_extract_int(p, i8::MIN as int, i8::MAX as int) {
            Ok(v) => Ok(RVal::I8(v as i8)),
            Err(e) => Err(e),
        },
        TypeShape::I16 => match spec_extract_int(p, i16::MIN as int, i16::MAX as int) {
            Ok(v) => Ok(RVal::I16(v as i16)),
            Err(e) => Err(e),
        },
        TypeShape::I32 => match spec_extract_int(p, i32::MIN as int, i32::MAX as int) {
            Ok(v) => Ok(RVal::I32(v as i32)),
            Err(e) => Err(e),
        },
        TypeShape::I64 => match spec_extract_int(p, i64::MIN as int, i64::MAX as int) {
            Ok(v) => Ok(RVal::I64(v as i64)),
            Err(e) => Err(e),
        },
        TypeShape::I128 => match spec_extract_int(p, i128::MIN as int, i128::MAX as int) {
            Ok(v) => Ok(RVal::I128(v as i128)),
            Err(e) => Err(e),
        },
        TypeShape::U8 => match spec_extract_int(p, 0, u8::MAX as int) {
            Ok(v) => Ok(RVal::U8(v as u8)),
            Err(e) => Err(e),
        },
        TypeShape::U16 => match spec_extract_int(p, 0, u16::MAX as int) {
            Ok(v) => Ok(RVal::U16(v as u16)),
            Err(e) => Err(e),
        },
        TypeShape::U32 => match spec_extract_int(p, 0, u32::MAX as int) {
            Ok(v) => Ok(RVal::U32(v as u32)),
            Err(e) => Err(e),
        },
        TypeShape::U64 => match spec_extract_int(p, 0, u64::MAX as int) {
            Ok(v) => Ok(RVal::U64(v as u64)),
            Err(e) => Err(e),
        },
        TypeShape::U128 => match spec_extract_int(p, 0, u128::MAX as int) {
            Ok(v) => Ok(RVal::U128(v as u128)),
            Err(e) => Err(e),
        },
        TypeShape::F32 => match p {
            PyVal::Float(bits) => Ok(RVal::F32(bits)),
            _ => Err(SErr::HostErr(float_type_err(p))),
        },
        TypeShape::F64 => match p {
            PyVal::Float(bits) => Ok(RVal::F64(bits)),
            _ => Err(SErr::HostErr(float_type_err(p))),
        },
        TypeShape::Char => match p {
            PyVal::Str(s) => if s.len() == 1 {
                Ok(RVal::Char(s[0]))
            } else {
                Err(SErr::InvalidLengthChar)
            },
            _ => Err(SErr::UnexpectedType(kind_name(p))),
        },
        TypeShape::Str => match p {
            PyVal::Str(s) => Ok(RVal::Str(s)),
            _ => Err(SErr::UnexpectedType(kind_name(p))),
        },
        TypeShape::Bytes => match p {
            PyVal::Bytes(b) => Ok(RVal::Bytes(b)),
            PyVal::ByteArray(b) => Ok(RVal::Bytes(b)),
            _ => Err(SErr::UnexpectedType(kind_name(p))),
        },
        TypeShape::Option(inner) => if p is Null {
            Ok(RVal::OptionNone)
        } else {
            match spec_decode(*inner, p) {
                Ok(v) => Ok(RVal::OptionSome(Box::new(v))),
                Err(e) => Err(e),
            }
        },
        TypeShape::Unit => if p is Null {
            Ok(RVal::Unit)
        } else {
            Err(SErr::Message("expected None"@))
        },
        TypeShape::UnitStruct(name) => if p is Null {
            Ok(RVal::UnitStruct(name@))
        } else {
            Err(SErr::Message("expected None"@))
        },
        TypeShape::NewtypeStruct(name, inner) => match spec_decode(*inner, p) {
            Ok(v) => Ok(RVal::NewtypeStruct(name@, Box::new(v))),
            Err(e) => Err(e),
        },
        TypeShape::Sequence(elem) => match seq_fallback_items(p) {
            Some(items) => match spec_decode_elems(*elem, items) {
                Ok(out) => Ok(RVal::Sequence(out)),
                Err(e) => Err(e),
            },
            None => Err(SErr::UnexpectedType(kind_name(p))),
        },
        TypeShape::Tuple(shapes) => match spec_decode_tuple(shapes@, p) {
            Ok(out) => Ok(RVal::Tuple(out)),
            Err(e) => Err(e),
        },
        TypeShape::TupleStruct(name, shapes) => match spec_decode_tuple(shapes@, p) {
            Ok(out) => Ok(RVal::TupleStruct(name@, out)),
            Err(e) => Err(e),
        },
        TypeShape::Mapping(_, _) => match mapping_entries(p) {
            Some(entries) => match spec_decode_pairs(shape, entries) {
                Ok(out) => Ok(RVal::Mapping(out)),
                Err(e) => Err(e),
            },
            None => Err(SErr::UnexpectedType(kind_name(p))),
        },
        TypeShape::Struct(name, fields) => match mapping_entries(p) {
            Some(entries) => match spec_decode_struct(fields@, entries) {
                Ok(values) => Ok(RVal::Struct(name@, values)),
                Err(e) => Err(e),
            },
            None => Err(SErr::UnexpectedType(kind_name(p))),
        },
        TypeShape::Enum(name, variants) => match spec_enum_access(p) {
            Err(e) => Err(e),
            Ok(pair) => match variant_index(variants@, pair.0) {
                None => Err(unknown_variant_err(pair.0)),
                Some(i) => spec_decode_variant(name@, variants@[i], pair.1),
            },
        },
        TypeShape::Ignored => Ok(RVal::Unit),
        TypeShape::Any => spec_any(p),
    }
}

#[via_fn]
proof fn spec_decode_dec(shape: TypeShape, p: PyVal) {
    match shape {
        TypeShape::Enum(_name, variants) => match spec_enum_access(p) {
            Ok(pair) => {
                lemma_variant_index_bounds(variants@, pair.0);
            },
            _ => {},
        },
        _ => {},
    }
}

/// Typed decode of each element of an unconstrained sequence.
pub open spec fn spec_decode_elems(elem: TypeShape, items: Seq<PyVal>) -> Result<Seq<RVal>, SErr>
    decreases elem, 1int, items.len(),
{
    if items.len() == 0 {
        Ok(Seq::empty())
    } else {
        match spec_decode(elem, items[0]) {
            Err(e) => Err(e),
            Ok(v) => match spec_decode_elems(elem, items.drop_first()) {
                Err(e) => Err(e),
                Ok(rest) => Ok(seq![v] + rest),
            },
        }
    }
}

/// Typed decode of a fixed-arity tuple: the element count must match the
/// shape count, each element decoded under its own shape.
pub open spec fn spec_decode_tuple(shapes: Seq<TypeShape>, p: PyVal) -> Result<Seq<RVal>, SErr>
    decreases shapes, 1int, 0int,
{
    match sequence_items(p) {
        None => Err(SErr::UnexpectedType(kind_name(p))),
        Some(items) => if items.len() != shapes.len() {
            Err(SErr::IncorrectSequenceLength { expected: shapes.len() as int, got: items.len() as int })
        } else {
            spec_decode_zip(shapes, items)
        },
    }
}

/// Typed decode of elements under positionally matching shapes.
pub open spec fn spec_decode_zip(shapes: Seq<TypeShape>, items: Seq<PyVal>) -> Result<
    Seq<RVal>,
    SErr,
>
    decreases shapes, 0int, 0int,
{
    if shapes.len() == 0 || items.len() == 0 {
        Ok(Seq::empty())
    } else {
        match spec_decode(shapes[0], items[0]) {
            Err(e) => Err(e),
            Ok(v) => match spec_decode_zip(shapes.drop_first(), items.drop_first()) {
                Err(e) => Err(e),
                Ok(rest) => Ok(seq![v] + rest),
            },
        }
    }
}

/// Typed decode of mapping entries under a mapping shape, the key under
/// the key shape before the value under the value shape, in entry order.
pub open spec fn spec_decode_pairs(
    shape: TypeShape,
    entries: Seq<(PyVal, PyVal)>,
) -> Result<Seq<(RVal, RVal)>, SErr>
    recommends
        shape is Mapping,
    decreases shape, 0int, entries.len(),
{
    match shape {
        TypeShape::Mapping(kshape, vshape) => if entries.len() == 0 {
            Ok(Seq::empty())
        } else {
            match spec_decode(*kshape, entries[0].0) {
                Err(e) => Err(e),
                Ok(k) => match spec_decode(*vshape, entries[0].1) {
                    Err(e) => Err(e),
                    Ok(v) => match spec_decode_pairs(shape, entries.drop_first()) {
                        Err(e) => Err(e),
                        Ok(rest) => Ok(seq![(k, v)] + rest),
                    },
                },
            }
        },
        _ => Ok(Seq::empty()),
    }
}

/// Typed decode of a struct's fields from mapping entries: walk the entries
/// in mapping order, matching each string key against the declared field
/// names (a non-string key refuses, an unknown key is ignored, a repeated
/// key is a duplicate-field error), then collect the decoded values in
/// declaration order, reporting the first field never seen as missing.
pub open spec fn spec_decode_struct(
    fields: Seq<(String, TypeShape)>,
    entries: Seq<(PyVal, PyVal)>,
) -> Result<Seq<(Seq<char>, RVal)>, SErr>
    decreases fields, 1int, 0int,
{
    match spec_struct_walk(fields, entries, Seq::new(fields.len(), |i: int| None::<RVal>)) {
        Err(e) => Err(e),
        Ok(acc) => spec_struct_collect(fields, acc),
    }
}

/// One pass over the entries, filling the accumulator slot of each matched
/// field.
pub open spec fn spec_struct_walk(
    fields: Seq<(String, TypeShape)>,
    entries: Seq<(PyVal, PyVal)>,
    acc: Seq<Option<RVal>>,
) -> Result<Seq<Option<RVal>>, SErr>
    decreases fields, 0int, entries.len(),
    via spec_struct_walk_dec
{
    if entries.len() == 0 {
        Ok(acc)
    } else {
        match entries[0].0 {
            PyVal::Str(k) => match field_index(fields, k) {
                None => spec_struct_walk(fields, entries.drop_first(), acc),
                Some(i) => if acc[i] is Some {
                    Err(duplicate_field_err(k))
                } else {
                    match spec_decode(fields[i].1, entries[0].1) {
                        Err(e) => Err(e),
                        Ok(v) => spec_struct_walk(
                            fields,
                            entries.drop_first(),
                            acc.update(i, Some(v)),
                        ),
                    }
                },
            },
            _ => Err(SErr::DictKeyNotString),
        }
    }
}

#[via_fn]
proof fn spec_struct_walk_dec(
    fields: Seq<(String, TypeShape)>,
    entries: Seq<(PyVal, PyVal)>,
    acc: Seq<Option<RVal>>,
) {
    if entries.len() > 0 {
        match entries[0].0 {
            PyVal::Str(k) => {
                lemma_field_index_bounds(fields, k);
            },
            _ => {},
        }
    }
}

/// Collect the accumulator in declaration order; the first unfilled slot is
/// the missing field.
pub open spec fn spec_struct_collect(
    fields: Seq<(String, TypeShape)>,
    acc: Seq<Option<RVal>>,
) -> Result<Seq<(Seq<char>, RVal)>, SErr>
    decreases fields.len(),
{
    if fields.len() == 0 {
        Ok(Seq::empty())
    } else {
        match acc[0] {
            None => Err(missing_field_err(fields[0].0@)),
            Some(v) => match spec_struct_collect(fields.drop_first(), acc.drop_first()) {
                Err(e) => Err(e),
                Ok(rest) => Ok(seq![(fields[0].0@, v)] + rest),
            },
        }
    }
}

/// Typed decode of one enum variant's payload.
pub open spec fn spec_decode_variant(
    enum_name: Seq<char>,
    variant: (String, VariantShape),
    payload: Option<PyVal>,
) -> Result<RVal, SErr>
    decreases variant, 1int, 0int,
{
    match variant.1 {
        VariantShape::Unit => Ok(RVal::UnitVariant(enum_name, variant.0@)),
        VariantShape::Newtype(inner) => match payload {
            None => Err(SErr::Message("invalid type: unit variant, expected newtype variant"@)),
            Some(pl) => match spec_decode(*inner, pl) {
                Ok(v) => Ok(RVal::NewtypeVariant(enum_name, variant.0@, Box::new(v))),
                Err(e) => Err(e),
            },
        },
        VariantShape::Tuple(shapes) => match payload {
            None => Err(SErr::Message("invalid type: unit variant, expected tuple variant"@)),
            Some(pl) => match spec_decode_tuple(shapes@, pl) {
                Ok(out) => Ok(RVal::TupleVariant(enum_name, variant.0@, out)),
                Err(e) => Err(e),
            },
        },
        VariantShape::Struct(fields) => match payload {
            None => Err(SErr::Message("invalid type: unit variant, expected struct variant"@)),
            Some(pl) => match mapping_entries(pl) {
                Some(entries) => match spec_decode_struct(fields@, entries) {
                    Ok(values) => Ok(RVal::StructVariant(enum_name, variant.0@, values)),
                    Err(e) => Err(e),
                },
                None => Err(SErr::UnexpectedType(kind_name(pl))),
            },
        },
    }
}

/// The elementwise view of an accumulator of decoded field values.
pub open spec fn opts_view(s: Seq<Option<RustValue>>) -> Seq<Option<RVal>>
    decreases s,
{
    if s.len() == 0 {
        Seq::empty()
    } else {
        opts_view(s.drop_last()).push(
            match s.last() {
                None => None,
                Some(v) => Some(rv(v)),
            },
        )
    }
}

pub broadcast proof fn lemma_opts_view(s: Seq<Option<RustValue>>)
    ensures
        (#[trigger] opts_view(s)).len() == s.len(),
        forall|i: int|
            0 <= i < s.len() ==> opts_view(s)[i] == (match s[i] {
                None => None,
                Some(v) => Some(rv(v)),
            }),
    decreases s.len(),
{
    if s.len() > 0 {
        lemma_opts_view(s.drop_last());
    }
}

/// Every filled accumulator slot is canonical.
pub open spec fn opts_wf(s: Seq<Option<RustValue>>) -> bool {
    forall|i: int|
        0 <= i < s.len() ==> (match #[trigger] s[i] {
            None => true,
            Some(v) => rv_wf(v),
        })
}

/// Attempt to convert a dynamic object to a static value of the given
/// target shape.
pub fn depythonize_as(shape: &TypeShape, obj: &PyValue) -> (r: Result<RustValue, PythonizeError>)
    requires
        pv_wf(*obj),
    ensures
        dec_view(r) == spec_decode(*shape, obj@),
        r matches Ok(v) ==> rv_wf(v),
{
    decode_value(shape, obj)
}

/// Whether a shape is handled by a single extraction call, with no
/// shape-directed descent.
pub open spec fn shape_is_simple(shape: TypeShape) -> bool {
    match shape {
        TypeShape::Option(_) => false,
        TypeShape::NewtypeStruct(_, _) => false,
        TypeShape::Sequence(_) => false,
        TypeShape::Tuple(_) => false,
        TypeShape::TupleStruct(_, _) => false,
        TypeShape::Mapping(_, _) => false,
        TypeShape::Struct(_, _) => false,
        TypeShape::Enum(_, _) => false,
        _ => true,
    }
}

/// Typed decode of one dynamic object under one shape, recursively.
fn decode_value(shape: &TypeShape, v: &PyValue) -> (r: Result<RustValue, PythonizeError>)
    requires
        pv_wf(*v),
    ensures
        dec_view(r) == spec_decode(*shape, pv(*v)),
        r matches Ok(out) ==> rv_wf(out),
    decreases *shape, 3int, 0int,
{
    match shape {
        TypeShape::Option(inner) => {
            let d = Depythonizer::from_object(v);
            match d.deserialize_option() {
                None => Ok(RustValue::OptionNone),
                Some(di) => match decode_value(&*inner, di.input) {
                    Ok(out) => Ok(RustValue::OptionSome(Box::new(out))),
                    Err(e) => Err(e),
                },
            }
        },
        TypeShape::NewtypeStruct(name, inner) => {
            let d = Depythonizer::from_object(v);
            let di = d.deserialize_newtype_struct(name.as_str());
            match decode_value(&*inner, di.input) {
                Ok(out) => Ok(RustValue::NewtypeStruct(str_clone(name), Box::new(out))),
                Err(e) => Err(e),
            }
        },
        TypeShape::Sequence(elem) => match decode_seq_shape(&*elem, v) {
            Ok(out) => Ok(RustValue::Sequence(out)),
            Err(e) => Err(e),
        },
        TypeShape::Tuple(shapes) => match decode_tuple_shape(shapes, v) {
            Ok(out) => Ok(RustValue::Tuple(out)),
            Err(e) => Err(e),
        },
        TypeShape::TupleStruct(name, shapes) => match decode_tuple_shape(shapes, v) {
            Ok(out) => Ok(RustValue::TupleStruct(str_clone(name), out)),
            Err(e) => Err(e),
        },
        TypeShape::Mapping(_, _) => match decode_map_shape(shape, v) {
            Ok(out) => Ok(RustValue::Mapping(out)),
            Err(e) => Err(e),
        },
        TypeShape::Struct(name, fields) => match decode_struct_shape(name, fields, v) {
            Ok(values) => Ok(RustValue::Struct(str_clone(name), values)),
            Err(e) => Err(e),
        },
        TypeShape::Enum(name, variants) => decode_enum_shape(name, variants, v),
        _ => decode_simple_shape(shape, v),
    }
}

/// Whether a shape is a fixed-width integer target.
pub open spec fn shape_is_int(shape: TypeShape) -> bool {
    match shape {
        TypeShape::I8 => true,
        TypeShape::I16 => true,
        TypeShape::I32 => true,
        TypeShape::I64 => true,
        TypeShape::I128 => true,
        TypeShape::U8 => true,
        TypeShape::U16 => true,
        TypeShape::U32 => true,
        TypeShape::U64 => true,
        TypeShape::U128 => true,
        _ => false,
    }
}

/// Typed decode under a shape with no descent: one extraction call of the
/// wrapped decoder.
fn decode_simple_shape(shape: &TypeShape, v: &PyValue) -> (r: Result<RustValue, PythonizeError>)
    requires
        pv_wf(*v),
        shape_is_simple(*shape),
    ensures
        dec_view(r) == spec_decode(*shape, pv(*v)),
        r matches Ok(out) ==> rv_wf(out),
{
    if int_shape(shape) {
        decode_int_shape(shape, v)
    } else {
        decode_misc_shape(shape, v)
    }
}

/// Whether this shape is a fixed-width integer target.
fn int_shape(shape: &TypeShape) -> (r: bool)
    ensures
        r == shape_is_int(*shape),
{
    match shape {
        TypeShape::I8 => true,
        TypeShape::I16 => true,
        TypeShape::I32 => true,
        TypeShape::I64 => true,
        TypeShape::I128 => true,
        TypeShape::U8 => true,
        TypeShape::U16 => true,
        TypeShape::U32 => true,
        TypeShape::U64 => true,
        TypeShape::U128 => true,
        _ => false,
    }
}

/// Typed decode into a fixed-width integer: direct range-checked
/// extraction.
fn decode_int_shape(shape: &TypeShape, v: &PyValue) -> (r: Result<RustValue, PythonizeError>)
    requires
        pv_wf(*v),
        shape_is_int(*shape),
    ensures
        dec_view(r) == spec_decode(*shape, pv(*v)),
        r matches Ok(out) ==> rv_wf(out),
{
    let d = Depythonizer::from_object(v);
    match shape {
        TypeShape::I8 => match d.deserialize_i8() {
            Ok(x) => Ok(RustValue::I8(x)),
            Err(e) => Err(e),
        },
        TypeShape::I16 => match d.deserialize_i16() {
            Ok(x) => Ok(RustValue::I16(x)),
            Err(e) => Err(e),
        },
        TypeShape::I32 => match d.deserialize_i32() {
            Ok(x) => Ok(RustValue::I32(x)),
            Err(e) => Err(e),
        },
        TypeShape::I64 => match d.deserialize_i64() {
            Ok(x) => Ok(RustValue::I64(x)),
            Err(e) => Err(e),
        },
        TypeShape::I128 => match d.deserialize_i128() {
            Ok(x) => Ok(RustValue::I128(x)),
            Err(e) => Err(e),
        },
        TypeShape::U8 => match d.deserialize_u8() {
            Ok(x) => Ok(RustValue::U8(x)),
            Err(e) => Err(e),
        },
        TypeShape::U16 => match d.deserialize_u16() {
            Ok(x) => Ok(RustValue::U16(x)),
            Err(e) => Err(e),
        },
        TypeShape::U32 => match d.deserialize_u32() {
            Ok(x) => Ok(RustValue::U32(x)),
            Err(e) => Err(e),
        },
        TypeShape::U64 => match d.deserialize_u64() {
            Ok(x) => Ok(RustValue::U64(x)),
            Err(e) => Err(e),
        },
        TypeShape::U128 => match d.deserialize_u128() {
            Ok(x) => Ok(RustValue::U128(x)),
            Err(e) => Err(e),
        },
        _ => {
            proof {
                assert(false);
            }
            Err(PythonizeError::invalid_enum_type())
        },
    }
}

/// Typed decode under the remaining simple shapes.
#[verifier::rlimit(100)]
#[verifier::spinoff_prover]
fn decode_misc_shape(shape: &TypeShape, v: &PyValue) -> (r: Result<RustValue, PythonizeError>)
    requires
        pv_wf(*v),
        shape_is_simple(*shape),
        !shape_is_int(*shape),
    ensures
        dec_view(r) == spec_decode(*shape, pv(*v)),
        r matches Ok(out) ==> rv_wf(out),
{
    let d = Depythonizer::from_object(v);
    match shape {
        TypeShape::Bool => match d.deserialize_bool() {
            Ok(b) => {
                proof {
                    lemma_rv_bool(b);
                }
                Ok(RustValue::Bool(b))
            },
            Err(e) => Err(e),
        },
        TypeShape::F32 => match d.deserialize_f32() {
            Ok(bits) => {
                proof {
                    lemma_rv_f32(bits);
                }
                Ok(RustValue::F32(bits))
            },
            Err(e) => Err(e),
        },
        TypeShape::F64 => match d.deserialize_f64() {
            Ok(bits) => {
                proof {
                    lemma_rv_f64(bits);
                }
                Ok(RustValue::F64(bits))
            },
            Err(e) => Err(e),
        },
        TypeShape::Char => match d.deserialize_char() {
            Ok(c) => {
                proof {
                    lemma_rv_char(c);
                }
                Ok(RustValue::Char(c))
            },
            Err(e) => Err(e),
        },
        TypeShape::Str => match d.deserialize_str() {
            Ok(s) => {
                proof {
                    lemma_rv_str(s);
                }
                Ok(RustValue::Str(s))
            },
            Err(e) => Err(e),
        },
        TypeShape::Bytes => match d.deserialize_bytes() {
            Ok(b) => {
                proof {
                    lemma_rv_bytes(b);
                }
                Ok(RustValue::Bytes(b))
            },
            Err(e) => Err(e),
        },
        TypeShape::Unit => match d.deserialize_unit() {
            Ok(_) => {
                proof {
                    lemma_rv_unit();
                }
                Ok(RustValue::Unit)
            },
            Err(e) => Err(e),
        },
        TypeShape::UnitStruct(name) => match d.deserialize_unit_struct(name.as_str()) {
            Ok(_) => {
                let cloned = str_clone(name);
                proof {
                    lemma_rv_unit_struct(cloned);
                }
                Ok(RustValue::UnitStruct(cloned))
            },
            Err(e) => Err(e),
        },
        TypeShape::Ignored => match d.deserialize_ignored_any() {
            Ok(_) => {
                proof {
                    lemma_rv_unit();
                }
                Ok(RustValue::Unit)
            },
            Err(e) => Err(e),
        },
        TypeShape::Any => d.deserialize_any(),
        _ => {
            proof {
                assert(false);
            }
            Err(PythonizeError::invalid_enum_type())
        },
    }
}

/// Typed decode of an unconstrained sequence's elements, with the set
/// fallback.
fn decode_seq_shape(elem: &TypeShape, v: &PyValue) -> (r: Result<Vec<RustValue>, PythonizeError>)
    requires
        pv_wf(*v),
    ensures
        match r {
            Ok(out) => {
                &&& seq_fallback_items(pv(*v)) matches Some(items) && spec_decode_elems(
                    *elem,
                    items,
                ) == Ok::<Seq<RVal>, SErr>(rv_seq(out@))
                &&& rv_seq_wf(out@)
            },
            Err(e) => match seq_fallback_items(pv(*v)) {
                Some(items) => spec_decode_elems(*elem, items) == Err::<Seq<RVal>, SErr>(e@),
                None => e@ == SErr::UnexpectedType(kind_name(pv(*v))),
            },
        },
    decreases *elem, 5int, 0int,
{
    let d = Depythonizer::from_object(v);
    match d.deserialize_seq() {
        Ok(cursor) => {
            let items = match cursor {
                crate::de::SeqItems::OfSequence(a) => a.seq,
                crate::de::SeqItems::OfSet(s) => s.iter,
            };
            proof {
                assert(pv_seq(items@).skip(0) =~= pv_seq(items@));
            }
            decode_elems(elem, items, 0)
        },
        Err(e) => Err(e),
    }
}

/// Typed decode of a fixed-arity tuple's elements.
fn decode_tuple_shape(shapes: &Vec<TypeShape>, v: &PyValue) -> (r: Result<
    Vec<RustValue>,
    PythonizeError,
>)
    requires
        pv_wf(*v),
    ensures
        match r {
            Ok(out) => {
                &&& spec_decode_tuple(shapes@, pv(*v)) == Ok::<Seq<RVal>, SErr>(rv_seq(out@))
                &&& rv_seq_wf(out@)
            },
            Err(e) => spec_decode_tuple(shapes@, pv(*v)) == Err::<Seq<RVal>, SErr>(e@),
        },
    decreases *shapes, 5int, 0int,
{
    let d = Depythonizer::from_object(v);
    match d.deserialize_tuple(shapes.len()) {
        Ok(a) => {
            proof {
                lemma_pv_seq(a.seq@);
                lemma_zip_full(shapes@, a.seq@);
            }
            decode_zip(shapes, a.seq, 0)
        },
        Err(e) => Err(e),
    }
}

/// Typed decode of a map's entries under a mapping shape.
fn decode_map_shape(shape: &TypeShape, v: &PyValue) -> (r: Result<
    Vec<(RustValue, RustValue)>,
    PythonizeError,
>)
    requires
        shape is Mapping,
        pv_wf(*v),
    ensures
        match r {
            Ok(out) => {
                &&& mapping_entries(pv(*v)) matches Some(entries) && spec_decode_pairs(
                    *shape,
                    entries,
                ) == Ok::<Seq<(RVal, RVal)>, SErr>(rv_entries(out@))
                &&& rv_entries_wf(out@)
            },
            Err(e) => match mapping_entries(pv(*v)) {
                Some(entries) => spec_decode_pairs(*shape, entries) == Err::<
                    Seq<(RVal, RVal)>,
                    SErr,
                >(e@),
                None => e@ == SErr::UnexpectedType(kind_name(pv(*v))),
            },
        },
    decreases *shape, 2int, 0int,
{
    let d = Depythonizer::from_object(v);
    match d.deserialize_map() {
        Ok(m) => {
            proof {
                assert(pv_entries(m.entries@).skip(0) =~= pv_entries(m.entries@));
            }
            decode_pairs_from(shape, m.entries)
        },
        Err(e) => Err(e),
    }
}

/// Typed decode of a whole entry list under a mapping shape.
fn decode_pairs_from(shape: &TypeShape, entries: &Vec<(PyValue, PyValue)>) -> (r: Result<
    Vec<(RustValue, RustValue)>,
    PythonizeError,
>)
    requires
        shape is Mapping,
        pv_entries_wf(entries@),
    ensures
        match r {
            Ok(out) => {
                &&& spec_decode_pairs(*shape, pv_entries(entries@)) == Ok::<
                    Seq<(RVal, RVal)>,
                    SErr,
                >(rv_entries(out@))
                &&& rv_entries_wf(out@)
            },
            Err(e) => spec_decode_pairs(*shape, pv_entries(entries@)) == Err::<
                Seq<(RVal, RVal)>,
                SErr,
            >(e@),
        },
    decreases *shape, 1int, 0int,
{
    proof {
        assert(pv_entries(entries@).skip(0) =~= pv_entries(entries@));
    }
    decode_pairs(shape, entries, 0)
}

/// Typed decode of a struct from a mapping-capable object.
fn decode_struct_shape(
    name: &String,
    fields: &Vec<(String, TypeShape)>,
    v: &PyValue,
) -> (r: Result<Vec<(String, RustValue)>, PythonizeError>)
    requires
        pv_wf(*v),
    ensures
        match r {
            Ok(out) => {
                &&& mapping_entries(pv(*v)) matches Some(entries) && spec_decode_struct(
                    fields@,
                    entries,
                ) == Ok::<Seq<(Seq<char>, RVal)>, SErr>(rv_fields(out@))
                &&& rv_fields_wf(out@)
            },
            Err(e) => match mapping_entries(pv(*v)) {
                Some(entries) => spec_decode_struct(fields@, entries) == Err::<
                    Seq<(Seq<char>, RVal)>,
                    SErr,
                >(e@),
                None => e@ == SErr::UnexpectedType(kind_name(pv(*v))),
            },
        },
    decreases *fields, 4int, 0int,
{
    let d = Depythonizer::from_object(v);
    match d.deserialize_struct(name.as_str()) {
        Ok(m) => decode_struct(fields, m.entries),
        Err(e) => Err(e),
    }
}

/// Typed decode of an enum from the bare-string or tagged-mapping form.
fn decode_enum_shape(
    name: &String,
    variants: &Vec<(String, VariantShape)>,
    v: &PyValue,
) -> (r: Result<RustValue, PythonizeError>)
    requires
        pv_wf(*v),
    ensures
        dec_view(r) == (match spec_enum_access(pv(*v)) {
            Err(e) => Err::<RVal, SErr>(e),
            Ok(pair) => match variant_index(variants@, pair.0) {
                None => Err::<RVal, SErr>(unknown_variant_err(pair.0)),
                Some(i) => spec_decode_variant(name@, variants@[i], pair.1),
            },
        }),
        r matches Ok(out) ==> rv_wf(out),
    decreases *variants, 2int, 0int,
{
    let d = Depythonizer::from_object(v);
    match d.deserialize_enum() {
        Ok(a) => {
            proof {
                assert(variants@.skip(0) =~= variants@);
            }
            match find_variant(variants, a.variant, 0) {
                None => Err(unknown_variant_error(a.variant)),
                Some(i) => decode_variant(name, &variants[i], a.de),
            }
        },
        Err(e) => Err(e),
    }
}

/// Typed decode of the elements from `start` on, in order.
fn decode_elems(elem: &TypeShape, items: &Vec<PyValue>, start: usize) -> (r: Result<
    Vec<RustValue>,
    PythonizeError,
>)
    requires
        pv_seq_wf(items@),
        start <= items@.len(),
    ensures
        match r {
            Ok(out) => {
                &&& spec_decode_elems(*elem, pv_seq(items@).skip(start as int)) == Ok::<
                    Seq<RVal>,
                    SErr,
                >(rv_seq(out@))
                &&& rv_seq_wf(out@)
            },
            Err(e) => spec_decode_elems(*elem, pv_seq(items@).skip(start as int)) == Err::<
                Seq<RVal>,
                SErr,
            >(e@),
        },
    decreases *elem, 4int, items@.len() - start,
{
    proof {
        lemma_pv_seq(items@);
    }
    let ghost s = pv_seq(items@).skip(start as int);
    if start == items.len() {
        proof {
            assert(s =~= Seq::<PyVal>::empty());
            assert(rv_seq(Seq::<RustValue>::empty()) =~= Seq::<RVal>::empty());
        }
        Ok(Vec::new())
    } else {
        proof {
            assert(s[0] == pv(items@[start as int]));
            assert(s.drop_first() =~= pv_seq(items@).skip(start + 1));
        }
        let v = match decode_value(elem, &items[start]) {
            Ok(v) => v,
            Err(e) => {
                return Err(e);
            },
        };
        let mut rest = match decode_elems(elem, items, start + 1) {
            Ok(rest) => rest,
            Err(e) => {
                return Err(e);
            },
        };
        let ghost prev = rest@;
        rest.insert(0, v);
        proof {
            lemma_rv_seq(prev);
            lemma_rv_seq(rest@);
            assert(rv_seq(rest@) =~= seq![rv(v)] + rv_seq(prev));
            assert forall|j: int| 0 <= j < rest@.len() implies rv_wf(#[trigger] rest@[j]) by {
                if j == 0 {
                    assert(rest@[j] == v);
                } else {
                    assert(rest@[j] == prev[j - 1]);
                    assert(rv_wf(prev[j - 1]));
                }
            }
        }
        Ok(rest)
    }
}

/// The zip decode over a whole element list equals the tuple rule once the
/// arity matched.
proof fn lemma_zip_full(shapes: Seq<TypeShape>, items: Seq<PyValue>)
    requires
        shapes.len() == items.len(),
    ensures
        spec_decode_zip(shapes.skip(0), pv_seq(items).skip(0)) == spec_decode_zip(
            shapes,
            pv_seq(items),
        ),
{
    lemma_pv_seq(items);
    assert(shapes.skip(0) =~= shapes);
    assert(pv_seq(items).skip(0) =~= pv_seq(items));
}

/// Typed decode of positionally matched elements from `start` on.
fn decode_zip(shapes: &Vec<TypeShape>, items: &Vec<PyValue>, start: usize) -> (r: Result<
    Vec<RustValue>,
    PythonizeError,
>)
    requires
        pv_seq_wf(items@),
        start <= shapes@.len(),
        shapes@.len() == items@.len(),
    ensures
        match r {
            Ok(out) => {
                &&& spec_decode_zip(shapes@.skip(start as int), pv_seq(items@).skip(start as int))
                    == Ok::<Seq<RVal>, SErr>(rv_seq(out@))
                &&& rv_seq_wf(out@)
            },
            Err(e) => spec_decode_zip(
                shapes@.skip(start as int),
                pv_seq(items@).skip(start as int),
            ) == Err::<Seq<RVal>, SErr>(e@),
        },
    decreases *shapes, 4int, shapes@.len() - start,
{
    proof {
        lemma_pv_seq(items@);
    }
    let ghost sh = shapes@.skip(start as int);
    let ghost s = pv_seq(items@).skip(start as int);
    if start == shapes.len() {
        proof {
            assert(sh =~= Seq::<TypeShape>::empty());
            assert(rv_seq(Seq::<RustValue>::empty()) =~= Seq::<RVal>::empty());
        }
        Ok(Vec::new())
    } else {
        proof {
            assert(sh[0] == shapes@[start as int]);
            assert(s[0] == pv(items@[start as int]));
            assert(sh.drop_first() =~= shapes@.skip(start + 1));
            assert(s.drop_first() =~= pv_seq(items@).skip(start + 1));
        }
        let v = match decode_value(&shapes[start], &items[start]) {
            Ok(v) => v,
            Err(e) => {
                return Err(e);
            },
        };
        let mut rest = match decode_zip(shapes, items, start + 1) {
            Ok(rest) => rest,
            Err(e) => {
                return Err(e);
            },
        };
        let ghost prev = rest@;
        rest.insert(0, v);
        proof {
            lemma_rv_seq(prev);
            lemma_rv_seq(rest@);
            assert(rv_seq(rest@) =~= seq![rv(v)] + rv_seq(prev));
            assert forall|j: int| 0 <= j < rest@.len() implies rv_wf(#[trigger] rest@[j]) by {
                if j == 0 {
                    assert(rest@[j] == v);
                } else {
                    assert(rest@[j] == prev[j - 1]);
                    assert(rv_wf(prev[j - 1]));
                }
            }
        }
        Ok(rest)
    }
}

/// Typed decode of mapping entries from `start` on, under a mapping shape.
fn decode_pairs(shape: &TypeShape, entries: &Vec<(PyValue, PyValue)>, start: usize) -> (r: Result<
    Vec<(RustValue, RustValue)>,
    PythonizeError,
>)
    requires
        shape is Mapping,
        pv_entries_wf(entries@),
        start <= entries@.len(),
    ensures
        match r {
            Ok(out) => {
                &&& spec_decode_pairs(*shape, pv_entries(entries@).skip(start as int)) == Ok::<
                    Seq<(RVal, RVal)>,
                    SErr,
                >(rv_entries(out@))
                &&& rv_entries_wf(out@)
            },
            Err(e) => spec_decode_pairs(*shape, pv_entries(entries@).skip(start as int)) == Err::<
                Seq<(RVal, RVal)>,
                SErr,
            >(e@),
        },
    decreases *shape, 0int, entries@.len() - start,
{
    proof {
        lemma_pv_entries(entries@);
    }
    let ghost s = pv_entries(entries@).skip(start as int);
    let (kshape, vshape) = match shape {
        TypeShape::Mapping(kshape, vshape) => (kshape, vshape),
        _ => {
            return Ok(Vec::new());
        },
    };
    if start == entries.len() {
        proof {
            assert(s =~= Seq::<(PyVal, PyVal)>::empty());
            assert(rv_entries(Seq::<(RustValue, RustValue)>::empty()) =~= Seq::<
                (RVal, RVal),
            >::empty());
        }
        Ok(Vec::new())
    } else {
        proof {
            assert(s[0] == (pv(entries@[start as int].0), pv(entries@[start as int].1)));
            assert(s.drop_first() =~= pv_entries(entries@).skip(start + 1));
            assert(pv_wf(entries@[start as int].0) && pv_wf(entries@[start as int].1));
        }
        let k = match decode_value(&*kshape, &entries[start].0) {
            Ok(k) => k,
            Err(e) => {
                return Err(e);
            },
        };
        let v = match decode_value(&*vshape, &entries[start].1) {
            Ok(v) => v,
            Err(e) => {
                return Err(e);
            },
        };
        let mut rest = match decode_pairs(shape, entries, start + 1) {
            Ok(rest) => rest,
            Err(e) => {
                return Err(e);
            },
        };
        let ghost prev = rest@;
        rest.insert(0, (k, v));
        proof {
            lemma_rv_entries(prev);
            lemma_rv_entries(rest@);
            assert(rv_entries(rest@) =~= seq![(rv(k), rv(v))] + rv_entries(prev));
            assert forall|j: int| 0 <= j < rest@.len() implies rv_wf(
                (#[trigger] rest@[j]).0,
            ) && rv_wf(rest@[j].1) by {
                if j == 0 {
                    assert(rest@[j] == (k, v));
                } else {
                    assert(rest@[j] == prev[j - 1]);
                    assert(rv_wf(prev[j - 1].0) && rv_wf(prev[j - 1].1));
                }
            }
        }
        Ok(rest)
    }
}

/// The index of the first declared field named `name`, searching from
/// `start`.
fn find_field(fields: &Vec<(String, TypeShape)>, name: &String, start: usize) -> (r: Option<usize>)
    requires
        start <= fields@.len(),
    ensures
        match r {
            Some(j) => {
                &&& start <= j < fields@.len()
                &&& field_index(fields@.skip(start as int), name@) == Some(j - start)
            },
            None => field_index(fields@.skip(start as int), name@) is None,
        },
    decreases fields@.len() - start,
{
    let ghost s = fields@.skip(start as int);
    if start == fields.len() {
        proof {
            assert(s =~= Seq::<(String, TypeShape)>::empty());
        }
        None
    } else {
        proof {
            assert(s[0] == fields@[start as int]);
            assert(s.drop_first() =~= fields@.skip(start + 1));
        }
        if fields[start].0.eq(name) {
            Some(start)
        } else {
            match find_field(fields, name, start + 1) {
                Some(j) => Some(j),
                None => None,
            }
        }
    }
}

/// The index of the first declared variant named `name`, searching from
/// `start`.
fn find_variant(variants: &Vec<(String, VariantShape)>, name: &String, start: usize) -> (r: Option<
    usize,
>)
    requires
        start <= variants@.len(),
    ensures
        match r {
            Some(j) => {
                &&& start <= j < variants@.len()
                &&& variant_index(variants@.skip(start as int), name@) == Some(j - start)
            },
            None => variant_index(variants@.skip(start as int), name@) is None,
        },
    decreases variants@.len() - start,
{
    let ghost s = variants@.skip(start as int);
    if start == variants.len() {
        proof {
            assert(s =~= Seq::<(String, VariantShape)>::empty());
        }
        None
    } else {
        proof {
            assert(s[0] == variants@[start as int]);
            assert(s.drop_first() =~= variants@.skip(start + 1));
        }
        if variants[start].0.eq(name) {
            Some(start)
        } else {
            match find_variant(variants, name, start + 1) {
                Some(j) => Some(j),
                None => None,
            }
        }
    }
}

fn unknown_variant_error(name: &String) -> (r: PythonizeError)
    ensures
        r@ == unknown_variant_err(name@),
{
    let mut m = String::from_str("unknown variant `");
    m.append(name.as_str());
    m.append("`");
    PythonizeError::msg(m)
}

fn missing_field_error(name: &String) -> (r: PythonizeError)
    ensures
        r@ == missing_field_err(name@),
{
    let mut m = String::from_str("missing field `");
    m.append(name.as_str());
    m.append("`");
    PythonizeError::msg(m)
}

fn duplicate_field_error(name: &String) -> (r: PythonizeError)
    ensures
        r@ == duplicate_field_err(name@),
{
    let mut m = String::from_str("duplicate field `");
    m.append(name.as_str());
    m.append("`");
    PythonizeError::msg(m)
}

/// Typed decode of a struct's fields from the entries of a mapping.
fn decode_struct(fields: &Vec<(String, TypeShape)>, entries: &Vec<(PyValue, PyValue)>) -> (r:
    Result<Vec<(String, RustValue)>, PythonizeError>)
    requires
        pv_entries_wf(entries@),
    ensures
        match r {
            Ok(out) => {
                &&& spec_decode_struct(fields@, pv_entries(entries@)) == Ok::<
                    Seq<(Seq<char>, RVal)>,
                    SErr,
                >(rv_fields(out@))
                &&& rv_fields_wf(out@)
            },
            Err(e) => spec_decode_struct(fields@, pv_entries(entries@)) == Err::<
                Seq<(Seq<char>, RVal)>,
                SErr,
            >(e@),
        },
    decreases *fields, 3int, 0int,
{
    let mut acc: Vec<Option<RustValue>> = Vec::new();
    let ghost target = Seq::new(fields@.len(), |i: int| None::<RVal>);
    while acc.len() < fields.len()
        invariant
            acc@.len() <= fields@.len(),
            forall|i: int| 0 <= i < acc@.len() ==> #[trigger] acc@[i] is None,
        decreases fields@.len() - acc@.len(),
    {
        acc.push(None);
    }
    proof {
        lemma_opts_view(acc@);
        assert(opts_view(acc@) =~= target);
        assert(pv_entries(entries@).skip(0) =~= pv_entries(entries@));
    }
    let walked = match decode_struct_walk(fields, entries, 0, acc) {
        Ok(walked) => walked,
        Err(e) => {
            return Err(e);
        },
    };
    proof {
        assert(fields@.skip(0) =~= fields@);
    }
    decode_struct_collect(fields, walked, 0)
}

/// Walk the entries from `start`, filling the matched field slots.
fn decode_struct_walk(
    fields: &Vec<(String, TypeShape)>,
    entries: &Vec<(PyValue, PyValue)>,
    start: usize,
    acc: Vec<Option<RustValue>>,
) -> (r: Result<Vec<Option<RustValue>>, PythonizeError>)
    requires
        pv_entries_wf(entries@),
        start <= entries@.len(),
        acc@.len() == fields@.len(),
        opts_wf(acc@),
    ensures
        match r {
            Ok(out) => {
                &&& spec_struct_walk(fields@, pv_entries(entries@).skip(start as int), opts_view(
                    acc@,
                )) == Ok::<Seq<Option<RVal>>, SErr>(opts_view(out@))
                &&& opts_wf(out@)
                &&& out@.len() == fields@.len()
            },
            Err(e) => spec_struct_walk(
                fields@,
                pv_entries(entries@).skip(start as int),
                opts_view(acc@),
            ) == Err::<Seq<Option<RVal>>, SErr>(e@),
        },
    decreases *fields, 2int, entries@.len() - start,
{
    proof {
        lemma_pv_entries(entries@);
        lemma_opts_view(acc@);
    }
    let ghost s = pv_entries(entries@).skip(start as int);
    if start == entries.len() {
        proof {
            assert(s =~= Seq::<(PyVal, PyVal)>::empty());
        }
        Ok(acc)
    } else {
        proof {
            assert(s[0] == (pv(entries@[start as int].0), pv(entries@[start as int].1)));
            assert(s.drop_first() =~= pv_entries(entries@).skip(start + 1));
            assert(pv_wf(entries@[start as int].0) && pv_wf(entries@[start as int].1));
        }
        let key = match &entries[start].0 {
            PyValue::Str(k) => k,
            _ => {
                return Err(PythonizeError::dict_key_not_string());
            },
        };
        proof {
            assert(fields@.skip(0) =~= fields@);
        }
        match find_field(fields, key, 0) {
            None => decode_struct_walk(fields, entries, start + 1, acc),
            Some(i) => {
                proof {
                    assert(decreases_to!(fields@ => fields@[i as int]));
                }
                if acc[i].is_some() {
                    return Err(duplicate_field_error(key));
                }
                let v = match decode_value(&fields[i].1, &entries[start].1) {
                    Ok(v) => v,
                    Err(e) => {
                        return Err(e);
                    },
                };
                let mut acc2 = acc;
                acc2.set(i, Some(v));
                proof {
                    lemma_opts_view(acc2@);
                    assert(opts_view(acc2@) =~= opts_view(acc@).update(
                        i as int,
                        Some(rv(v)),
                    ));
                    assert forall|j: int| 0 <= j < acc2@.len() implies (match #[trigger] acc2@[j] {
                        None => true,
                        Some(w) => rv_wf(w),
                    }) by {
                        if j != i {
                            assert(acc2@[j] == acc@[j]);
                        }
                    }
                }
                decode_struct_walk(fields, entries, start + 1, acc2)
            },
        }
    }
}

/// Collect the filled slots from `start`, in declaration order, taking the
/// values out of the accumulator; the first empty slot names the missing
/// field.
fn decode_struct_collect(
    fields: &Vec<(String, TypeShape)>,
    acc: Vec<Option<RustValue>>,
    start: usize,
) -> (r: Result<Vec<(String, RustValue)>, PythonizeError>)
    requires
        acc@.len() == fields@.len() - start,
        start <= fields@.len(),
        opts_wf(acc@),
    ensures
        match r {
            Ok(out) => {
                &&& spec_struct_collect(fields@.skip(start as int), opts_view(acc@)) == Ok::<
                    Seq<(Seq<char>, RVal)>,
                    SErr,
                >(rv_fields(out@))
                &&& rv_fields_wf(out@)
            },
            Err(e) => spec_struct_collect(fields@.skip(start as int), opts_view(acc@)) == Err::<
                Seq<(Seq<char>, RVal)>,
                SErr,
            >(e@),
        },
    decreases fields@.len() - start,
{
    proof {
        lemma_opts_view(acc@);
    }
    let ghost fs = fields@.skip(start as int);
    let ghost vs = opts_view(acc@);
    if start == fields.len() {
        proof {
            assert(fs =~= Seq::<(String, TypeShape)>::empty());
            assert(rv_fields(Seq::<(String, RustValue)>::empty()) =~= Seq::<
                (Seq<char>, RVal),
            >::empty());
        }
        Ok(Vec::new())
    } else {
        proof {
            assert(fs[0] == fields@[start as int]);
            assert(fs.drop_first() =~= fields@.skip(start + 1));
        }
        let mut acc2 = acc;
        let head = acc2.remove(0);
        proof {
            lemma_opts_view(acc2@);
            assert(acc2@ =~= acc@.drop_first());
            assert(opts_view(acc2@) =~= vs.drop_first());
            assert forall|j: int| 0 <= j < acc2@.len() implies (match #[trigger] acc2@[j] {
                None => true,
                Some(w) => rv_wf(w),
            }) by {
                assert(acc2@[j] == acc@[j + 1]);
            }
        }
        let v = match head {
            None => {
                return Err(missing_field_error(&fields[start].0));
            },
            Some(v) => v,
        };
        let mut rest = match decode_struct_collect(fields, acc2, start + 1) {
            Ok(rest) => rest,
            Err(e) => {
                return Err(e);
            },
        };
        let ghost prev = rest@;
        rest.insert(0, (str_clone(&fields[start].0), v));
        proof {
            lemma_rv_fields(prev);
            lemma_rv_fields(rest@);
            assert(rv_fields(rest@) =~= seq![(fields@[start as int].0@, rv(rest@[0].1))]
                + rv_fields(prev));
            assert forall|j: int| 0 <= j < rest@.len() implies rv_wf(
                (#[trigger] rest@[j]).1,
            ) by {
                if j == 0 {
                } else {
                    assert(rest@[j] == prev[j - 1]);
                    assert(rv_wf(prev[j - 1].1));
                }
            }
        }
        Ok(rest)
    }
}

/// Typed decode of one enum variant's payload.
fn decode_variant<'a>(
    enum_name: &String,
    variant: &(String, VariantShape),
    de: Option<Depythonizer<'a>>,
) -> (r: Result<RustValue, PythonizeError>)
    requires
        de matches Some(d) ==> pv_wf(*d.input),
    ensures
        dec_view(r) == spec_decode_variant(enum_name@, *variant, match de {
            None => None::<PyVal>,
            Some(d) => Some(d.input@),
        }),
        r matches Ok(out) ==> rv_wf(out),
    decreases *variant, 1int, 0int,
{
    let ghost pview = match &de {
        None => None::<PyVal>,
        Some(d) => Some(d.input@),
    };
    match &variant.1 {
        VariantShape::Unit => {
            proof {
                assert(variant.1 is Unit);
                assert(spec_decode_variant(enum_name@, *variant, pview) == Ok::<RVal, SErr>(
                    RVal::UnitVariant(enum_name@, variant.0@),
                ));
            }
            Ok(RustValue::UnitVariant(str_clone(enum_name), str_clone(&variant.0)))
        },
        VariantShape::Newtype(inner) => match de {
            None => {
                proof {
                    assert(spec_decode_variant(enum_name@, *variant, pview) == Err::<RVal, SErr>(
                        SErr::Message("invalid type: unit variant, expected newtype variant"@),
                    ));
                }
                Err(PythonizeError::msg(String::from_str(
                    "invalid type: unit variant, expected newtype variant",
                )))
            },
            Some(d) => match decode_value(&*inner, d.input) {
                Ok(v) => {
                    proof {
                        assert(pview == Some(d.input@));
                        assert(spec_decode(**inner, d.input@) == Ok::<RVal, SErr>(rv(v)));
                        assert(spec_decode_variant(enum_name@, *variant, pview) == Ok::<
                            RVal,
                            SErr,
                        >(RVal::NewtypeVariant(enum_name@, variant.0@, Box::new(rv(v)))));
                    }
                    Ok(RustValue::NewtypeVariant(
                        str_clone(enum_name),
                        str_clone(&variant.0),
                        Box::new(v),
                    ))
                },
                Err(e) => Err(e),
            },
        },
        VariantShape::Tuple(shapes) => match de {
            None => {
                proof {
                    assert(spec_decode_variant(enum_name@, *variant, pview) == Err::<RVal, SErr>(
                        SErr::Message("invalid type: unit variant, expected tuple variant"@),
                    ));
                }
                Err(PythonizeError::msg(String::from_str(
                    "invalid type: unit variant, expected tuple variant",
                )))
            },
            Some(d) => match d.deserialize_tuple(shapes.len()) {
                Ok(a) => match decode_zip(shapes, a.seq, 0) {
                    Ok(out) => {
                        proof {
                            lemma_pv_seq(a.seq@);
                            lemma_pv_seq(a.seq@);
                        lemma_zip_full(shapes@, a.seq@);
                            assert(spec_decode_tuple(shapes@, pview->Some_0) == Ok::<
                                Seq<RVal>,
                                SErr,
                            >(rv_seq(out@)));
                            assert(spec_decode_variant(enum_name@, *variant, pview) == Ok::<
                                RVal,
                                SErr,
                            >(RVal::TupleVariant(enum_name@, variant.0@, rv_seq(out@))));
                        }
                        Ok(RustValue::TupleVariant(
                            str_clone(enum_name),
                            str_clone(&variant.0),
                            out,
                        ))
                    },
                    Err(e) => {
                        proof {
                            lemma_pv_seq(a.seq@);
                            lemma_pv_seq(a.seq@);
                        lemma_zip_full(shapes@, a.seq@);
                        }
                        Err(e)
                    },
                },
                Err(e) => Err(e),
            },
        },
        VariantShape::Struct(fields) => match de {
            None => {
                proof {
                    assert(spec_decode_variant(enum_name@, *variant, pview) == Err::<RVal, SErr>(
                        SErr::Message("invalid type: unit variant, expected struct variant"@),
                    ));
                }
                Err(PythonizeError::msg(String::from_str(
                    "invalid type: unit variant, expected struct variant",
                )))
            },
            Some(d) => match d.dict_access() {
                Ok(m) => match decode_struct(fields, m.entries) {
                    Ok(values) => Ok(RustValue::StructVariant(
                        str_clone(enum_name),
                        str_clone(&variant.0),
                        values,
                    )),
                    Err(e) => Err(e),
                },
                Err(e) => Err(e),
            },
        },
    }
}

/// Clone a string, keeping its view.
fn str_clone(s: &String) -> (r: String)
    ensures
        r@ == s@,
{
    s.clone()
}


} // verus!
