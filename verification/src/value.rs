//! The two value models the engines convert between.
//!
//! [`PyValue`] models the dynamically-typed side: one variant per runtime
//! kind that the decoder's classification distinguishes (none, bool, int,
//! float, str, bytes, bytearray, list, tuple, dict, set, frozenset, an object
//! supporting only the generic sequence protocol, one supporting only the
//! generic mapping protocol, and everything else).  Floats are carried as
//! IEEE-754 double bits; the conversion between those bits and the machine
//! float happens outside this crate.
//!
//! [`RustValue`] models the statically-typed side: one variant per call of
//! the generic serialization visitor contract, so a `RustValue` records
//! exactly which visitor method fires with which argument.
//!
//! Each type has a mathematical view ([`PyVal`], [`RVal`]) over `Seq`, `int`
//! and `Seq<char>`, and every contract in the crate is stated over the views.
use vstd::prelude::*;

use crate::long::PyLong;

verus! {

/// The mathematical view of a dynamic object: integers are unbounded,
/// strings are character sequences, containers are sequences of views.
pub enum PyVal {
    Null,
    Bool(bool),
    Int(int),
    Float(u64),
    Str(Seq<char>),
    Bytes(Seq<u8>),
    ByteArray(Seq<u8>),
    List(Seq<PyVal>),
    Tuple(Seq<PyVal>),
    Dict(Seq<(PyVal, PyVal)>),
    PySet(Seq<PyVal>),
    FrozenSet(Seq<PyVal>),
    Sequence(Seq<PyVal>),
    Mapping(Seq<(PyVal, PyVal)>),
    NamedMapping(Seq<char>, Seq<(PyVal, PyVal)>),
    Other(Seq<char>),
}

/// A dynamic object, tagged by its runtime kind.  `Sequence` and `Mapping`
/// stand for objects that support only the generic sequence or mapping
/// protocol; `NamedMapping` is such a mapping branded with a type name by a
/// container strategy; `Other` carries the reported type name of an object
/// with no conversion mapping.
#[derive(Debug, PartialEq)]
pub enum PyValue {
    Null,
    Bool(bool),
    Int(PyLong),
    Float(u64),
    Str(String),
    Bytes(Vec<u8>),
    ByteArray(Vec<u8>),
    List(Vec<PyValue>),
    Tuple(Vec<PyValue>),
    Dict(Vec<(PyValue, PyValue)>),
    PySet(Vec<PyValue>),
    FrozenSet(Vec<PyValue>),
    Sequence(Vec<PyValue>),
    Mapping(Vec<(PyValue, PyValue)>),
    NamedMapping(String, Vec<(PyValue, PyValue)>),
    Other(String),
}

/// The view of a dynamic object.
pub open spec fn pv(v: PyValue) -> PyVal
    decreases v,
{
    match v {
        PyValue::Null => PyVal::Null,
        PyValue::Bool(b) => PyVal::Bool(b),
        PyValue::Int(l) => PyVal::Int(l.value()),
        PyValue::Float(bits) => PyVal::Float(bits),
        PyValue::Str(s) => PyVal::Str(s@),
        PyValue::Bytes(b) => PyVal::Bytes(b@),
        PyValue::ByteArray(b) => PyVal::ByteArray(b@),
        PyValue::List(items) => PyVal::List(pv_seq(items@)),
        PyValue::Tuple(items) => PyVal::Tuple(pv_seq(items@)),
        PyValue::Dict(entries) => PyVal::Dict(pv_entries(entries@)),
        PyValue::PySet(items) => PyVal::PySet(pv_seq(items@)),
        PyValue::FrozenSet(items) => PyVal::FrozenSet(pv_seq(items@)),
        PyValue::Sequence(items) => PyVal::Sequence(pv_seq(items@)),
        PyValue::Mapping(entries) => PyVal::Mapping(pv_entries(entries@)),
        PyValue::NamedMapping(name, entries) => PyVal::NamedMapping(
            name@,
            pv_entries(entries@),
        ),
        PyValue::Other(name) => PyVal::Other(name@),
    }
}

/// The elementwise view of a sequence of dynamic objects.
pub open spec fn pv_seq(s: Seq<PyValue>) -> Seq<PyVal>
    decreases s,
{
    if s.len() == 0 {
        Seq::empty()
    } else {
        pv_seq(s.drop_last()).push(pv(s.last()))
    }
}

/// The pairwise view of the entries of a dynamic mapping.
pub open spec fn pv_entries(s: Seq<(PyValue, PyValue)>) -> Seq<(PyVal, PyVal)>
    decreases s,
{
    if s.len() == 0 {
        Seq::empty()
    } else {
        pv_entries(s.drop_last()).push((pv(s.last().0), pv(s.last().1)))
    }
}

pub broadcast proof fn lemma_pv_seq(s: Seq<PyValue>)
    ensures
        (#[trigger] pv_seq(s)).len() == s.len(),
        forall|i: int| 0 <= i < s.len() ==> pv_seq(s)[i] == pv(s[i]),
    decreases s.len(),
{
    if s.len() > 0 {
        lemma_pv_seq(s.drop_last());
    }
}

pub broadcast proof fn lemma_pv_entries(s: Seq<(PyValue, PyValue)>)
    ensures
        (#[trigger] pv_entries(s)).len() == s.len(),
        forall|i: int| 0 <= i < s.len() ==> pv_entries(s)[i] == (pv(s[i].0), pv(s[i].1)),
    decreases s.len(),
{
    if s.len() > 0 {
        lemma_pv_entries(s.drop_last());
    }
}

impl View for PyValue {
    type V = PyVal;

    open spec fn view(&self) -> PyVal {
        pv(*self)
    }
}

/// The canonical well-formedness of a dynamic object: every integer in it is
/// in canonical form.
pub open spec fn pv_wf(v: PyValue) -> bool
    decreases v,
{
    match v {
        PyValue::Int(l) => l.wf(),
        PyValue::List(items) => pv_seq_wf(items@),
        PyValue::Tuple(items) => pv_seq_wf(items@),
        PyValue::Dict(entries) => pv_entries_wf(entries@),
        PyValue::PySet(items) => pv_seq_wf(items@),
        PyValue::FrozenSet(items) => pv_seq_wf(items@),
        PyValue::Sequence(items) => pv_seq_wf(items@),
        PyValue::Mapping(entries) => pv_entries_wf(entries@),
        PyValue::NamedMapping(_name, entries) => pv_entries_wf(entries@),
        _ => true,
    }
}

pub open spec fn pv_seq_wf(s: Seq<PyValue>) -> bool
    decreases s,
{
    forall|i: int| 0 <= i < s.len() ==> pv_wf(#[trigger] s[i])
}

pub open spec fn pv_entries_wf(s: Seq<(PyValue, PyValue)>) -> bool
    decreases s,
{
    forall|i: int| 0 <= i < s.len() ==> pv_wf((#[trigger] s[i]).0) && pv_wf(s[i].1)
}

/// The mathematical view of a static-side value.
pub enum RVal {
    Bool(bool),
    I8(i8),
    I16(i16),
    I32(i32),
    I64(i64),
    I128(i128),
    U8(u8),
    U16(u16),
    U32(u32),
    U64(u64),
    U128(u128),
    BigInt(int),
    F32(u64),
    F64(u64),
    Char(char),
    Str(Seq<char>),
    Bytes(Seq<u8>),
    OptionNone,
    OptionSome(Box<RVal>),
    Unit,
    UnitStruct(Seq<char>),
    NewtypeStruct(Seq<char>, Box<RVal>),
    Sequence(Seq<RVal>),
    Tuple(Seq<RVal>),
    TupleStruct(Seq<char>, Seq<RVal>),
    Mapping(Seq<(RVal, RVal)>),
    Struct(Seq<char>, Seq<(Seq<char>, RVal)>),
    UnitVariant(Seq<char>, Seq<char>),
    NewtypeVariant(Seq<char>, Seq<char>, Box<RVal>),
    TupleVariant(Seq<char>, Seq<char>, Seq<RVal>),
    StructVariant(Seq<char>, Seq<char>, Seq<(Seq<char>, RVal)>),
}

/// A static-side value, mirroring the generic serialization data model: one
/// variant per visitor call.  `F32` is a value whose static type is the
/// narrow float, carried (like `F64`) as the IEEE-754 double bits of its
/// value.  `BigInt` is an integer beyond every fixed width, as handed to an
/// arbitrary-precision consumer.  For enum variants the first name is the
/// enum's, the second the variant's.
#[derive(Debug, PartialEq)]
pub enum RustValue {
    Bool(bool),
    I8(i8),
    I16(i16),
    I32(i32),
    I64(i64),
    I128(i128),
    U8(u8),
    U16(u16),
    U32(u32),
    U64(u64),
    U128(u128),
    BigInt(PyLong),
    F32(u64),
    F64(u64),
    Char(char),
    Str(String),
    Bytes(Vec<u8>),
    OptionNone,
    OptionSome(Box<RustValue>),
    Unit,
    UnitStruct(String),
    NewtypeStruct(String, Box<RustValue>),
    Sequence(Vec<RustValue>),
    Tuple(Vec<RustValue>),
    TupleStruct(String, Vec<RustValue>),
    Mapping(Vec<(RustValue, RustValue)>),
    Struct(String, Vec<(String, RustValue)>),
    UnitVariant(String, String),
    NewtypeVariant(String, String, Box<RustValue>),
    TupleVariant(String, String, Vec<RustValue>),
    StructVariant(String, String, Vec<(String, RustValue)>),
}

/// The view of a static-side value.
pub open spec fn rv(r: RustValue) -> RVal
    decreases r,
{
    match r {
        RustValue::Bool(b) => RVal::Bool(b),
        RustValue::I8(x) => RVal::I8(x),
        RustValue::I16(x) => RVal::I16(x),
        RustValue::I32(x) => RVal::I32(x),
        RustValue::I64(x) => RVal::I64(x),
        RustValue::I128(x) => RVal::I128(x),
        RustValue::U8(x) => RVal::U8(x),
        RustValue::U16(x) => RVal::U16(x),
        RustValue::U32(x) => RVal::U32(x),
        RustValue::U64(x) => RVal::U64(x),
        RustValue::U128(x) => RVal::U128(x),
        RustValue::BigInt(l) => RVal::BigInt(l.value()),
        RustValue::F32(bits) => RVal::F32(bits),
        RustValue::F64(bits) => RVal::F64(bits),
        RustValue::Char(c) => RVal::Char(c),
        RustValue::Str(s) => RVal::Str(s@),
        RustValue::Bytes(b) => RVal::Bytes(b@),
        RustValue::OptionNone => RVal::OptionNone,
        RustValue::OptionSome(inner) => RVal::OptionSome(Box::new(rv(*inner))),
        RustValue::Unit => RVal::Unit,
        RustValue::UnitStruct(name) => RVal::UnitStruct(name@),
        RustValue::NewtypeStruct(name, inner) => RVal::NewtypeStruct(
            name@,
            Box::new(rv(*inner)),
        ),
        RustValue::Sequence(items) => RVal::Sequence(rv_seq(items@)),
        RustValue::Tuple(items) => RVal::Tuple(rv_seq(items@)),
        RustValue::TupleStruct(name, items) => RVal::TupleStruct(name@, rv_seq(items@)),
        RustValue::Mapping(entries) => RVal::Mapping(rv_entries(entries@)),
        RustValue::Struct(name, fields) => RVal::Struct(name@, rv_fields(fields@)),
        RustValue::UnitVariant(name, variant) => RVal::UnitVariant(name@, variant@),
        RustValue::NewtypeVariant(name, variant, inner) => RVal::NewtypeVariant(
            name@,
            variant@,
            Box::new(rv(*inner)),
        ),
        RustValue::TupleVariant(name, variant, items) => RVal::TupleVariant(
            name@,
            variant@,
            rv_seq(items@),
        ),
        RustValue::StructVariant(name, variant, fields) => RVal::StructVariant(
            name@,
            variant@,
            rv_fields(fields@),
        ),
    }
}

/// The elementwise view of a sequence of static-side values.
pub open spec fn rv_seq(s: Seq<RustValue>) -> Seq<RVal>
    decreases s,
{
    if s.len() == 0 {
        Seq::empty()
    } else {
        rv_seq(s.drop_last()).push(rv(s.last()))
    }
}

/// The pairwise view of map entries.
pub open spec fn rv_entries(s: Seq<(RustValue, RustValue)>) -> Seq<(RVal, RVal)>
    decreases s,
{
    if s.len() == 0 {
        Seq::empty()
    } else {
        rv_entries(s.drop_last()).push((rv(s.last().0), rv(s.last().1)))
    }
}

/// The view of named fields.
pub open spec fn rv_fields(s: Seq<(String, RustValue)>) -> Seq<(Seq<char>, RVal)>
    decreases s,
{
    if s.len() == 0 {
        Seq::empty()
    } else {
        rv_fields(s.drop_last()).push((s.last().0@, rv(s.last().1)))
    }
}

pub broadcast proof fn lemma_rv_seq(s: Seq<RustValue>)
    ensures
        (#[trigger] rv_seq(s)).len() == s.len(),
        forall|i: int| 0 <= i < s.len() ==> rv_seq(s)[i] == rv(s[i]),
    decreases s.len(),
{
    if s.len() > 0 {
        lemma_rv_seq(s.drop_last());
    }
}

pub broadcast proof fn lemma_rv_entries(s: Seq<(RustValue, RustValue)>)
    ensures
        (#[trigger] rv_entries(s)).len() == s.len(),
        forall|i: int| 0 <= i < s.len() ==> rv_entries(s)[i] == (rv(s[i].0), rv(s[i].1)),
    decreases s.len(),
{
    if s.len() > 0 {
        lemma_rv_entries(s.drop_last());
    }
}

pub broadcast proof fn lemma_rv_fields(s: Seq<(String, RustValue)>)
    ensures
        (#[trigger] rv_fields(s)).len() == s.len(),
        forall|i: int| 0 <= i < s.len() ==> rv_fields(s)[i] == (s[i].0@, rv(s[i].1)),
    decreases s.len(),
{
    if s.len() > 0 {
        lemma_rv_fields(s.drop_last());
    }
}

impl View for RustValue {
    type V = RVal;

    open spec fn view(&self) -> RVal {
        rv(*self)
    }
}

/// Every `BigInt` inside a static-side value is canonical.
pub open spec fn rv_wf(r: RustValue) -> bool
    decreases r,
{
    match r {
        RustValue::BigInt(l) => l.wf(),
        RustValue::OptionSome(inner) => rv_wf(*inner),
        RustValue::NewtypeStruct(_name, inner) => rv_wf(*inner),
        RustValue::Sequence(items) => rv_seq_wf(items@),
        RustValue::Tuple(items) => rv_seq_wf(items@),
        RustValue::TupleStruct(_name, items) => rv_seq_wf(items@),
        RustValue::Mapping(entries) => rv_entries_wf(entries@),
        RustValue::Struct(_name, fields) => rv_fields_wf(fields@),
        RustValue::NewtypeVariant(_name, _variant, inner) => rv_wf(*inner),
        RustValue::TupleVariant(_name, _variant, items) => rv_seq_wf(items@),
        RustValue::StructVariant(_name, _variant, fields) => rv_fields_wf(fields@),
        _ => true,
    }
}

pub open spec fn rv_seq_wf(s: Seq<RustValue>) -> bool
    decreases s,
{
    forall|i: int| 0 <= i < s.len() ==> rv_wf(#[trigger] s[i])
}

pub open spec fn rv_entries_wf(s: Seq<(RustValue, RustValue)>) -> bool
    decreases s,
{
    forall|i: int| 0 <= i < s.len() ==> rv_wf((#[trigger] s[i]).0) && rv_wf(s[i].1)
}

pub open spec fn rv_fields_wf(s: Seq<(String, RustValue)>) -> bool
    decreases s,
{
    forall|i: int| 0 <= i < s.len() ==> rv_wf((#[trigger] s[i]).1)
}

/// The view and well-formedness of the leaf constructors, stated once so
/// that callers need not unfold the recursive view functions.
pub proof fn lemma_rv_bool(b: bool)
    ensures
        rv(RustValue::Bool(b)) == RVal::Bool(b),
        rv_wf(RustValue::Bool(b)),
{
}

pub proof fn lemma_rv_char(c: char)
    ensures
        rv(RustValue::Char(c)) == RVal::Char(c),
        rv_wf(RustValue::Char(c)),
{
}

pub proof fn lemma_rv_str(s: String)
    ensures
        rv(RustValue::Str(s)) == RVal::Str(s@),
        rv_wf(RustValue::Str(s)),
{
}

pub proof fn lemma_rv_bytes(b: Vec<u8>)
    ensures
        rv(RustValue::Bytes(b)) == RVal::Bytes(b@),
        rv_wf(RustValue::Bytes(b)),
{
}

pub proof fn lemma_rv_f32(bits: u64)
    ensures
        rv(RustValue::F32(bits)) == RVal::F32(bits),
        rv_wf(RustValue::F32(bits)),
{
}

pub proof fn lemma_rv_f64(bits: u64)
    ensures
        rv(RustValue::F64(bits)) == RVal::F64(bits),
        rv_wf(RustValue::F64(bits)),
{
}

pub proof fn lemma_rv_unit()
    ensures
        rv(RustValue::Unit) == RVal::Unit,
        rv_wf(RustValue::Unit),
{
}

pub proof fn lemma_rv_unit_struct(name: String)
    ensures
        rv(RustValue::UnitStruct(name)) == RVal::UnitStruct(name@),
        rv_wf(RustValue::UnitStruct(name)),
{
}

} // verus!
