//! The encoder: static values to dynamic objects.
//!
//! A [`Pythonizer`] implements the serialization visitor contract: one method
//! per scalar, and builder values for the compound shapes, which accumulate
//! already-encoded pieces and finish into one dynamic object.  A pluggable
//! container strategy ([`PythonizeTypes`]) decides which dynamic kinds carry
//! encoded sequences, mappings and named mappings.
use vstd::prelude::*;
use vstd::slice::slice_to_vec;
use vstd::string::*;

use crate::error::PythonizeError;
use crate::long::PyLong;
use crate::value::{
    lemma_pv_entries, lemma_pv_seq, lemma_rv_entries, lemma_rv_fields, lemma_rv_seq, pv_entries,
    pv_entries_wf, pv_seq, pv_seq_wf, pv_wf, rv, rv_entries, rv_entries_wf, rv_fields,
    rv_fields_wf, rv_seq, rv_seq_wf, rv_wf, PyVal, PyValue, RVal, RustValue,
};

verus! {

/// Which dynamic kind carries an encoded sequence: the native list, the
/// native tuple, or a caller-supplied sequence-protocol type.
#[derive(Clone, Copy, Debug, PartialEq, Eq, Structural)]
pub enum PythonizeListType {
    List,
    Tuple,
    CustomSequence,
}

/// Which dynamic kind carries an encoded mapping: the native dict, or a
/// caller-supplied mapping-protocol type.
#[derive(Clone, Copy, Debug, PartialEq, Eq, Structural)]
pub enum PythonizeMappingType {
    Dict,
    CustomMapping,
}

/// Which dynamic kind carries an encoded struct or enum mapping: an unnamed
/// mapping type through [`PythonizeUnnamedMappingAdapter`], which discards
/// the static name, or a caller-supplied named type that keeps it.
#[derive(Clone, Copy, Debug, PartialEq, Eq, Structural)]
pub enum PythonizeNamedMappingType {
    PythonizeUnnamedMappingAdapter(PythonizeMappingType),
    CustomNamed,
}

/// A container strategy: how sequences, mappings and named mappings are
/// materialized.
#[derive(Clone, Copy, Debug, PartialEq, Eq, Structural)]
pub struct PythonizeTypes {
    pub map: PythonizeMappingType,
    pub named_map: PythonizeNamedMappingType,
    pub list: PythonizeListType,
}

/// The default container strategy: dict, dict with the name discarded, and
/// list.
pub struct PythonizeDefault;

impl PythonizeDefault {
    /// The strategy this default stands for.
    pub fn types() -> (r: PythonizeTypes)
        ensures
            r == default_types(),
    {
        PythonizeTypes {
            map: PythonizeMappingType::Dict,
            named_map: PythonizeNamedMappingType::PythonizeUnnamedMappingAdapter(
                PythonizeMappingType::Dict,
            ),
            list: PythonizeListType::List,
        }
    }
}

/// The default container strategy.
pub open spec fn default_types() -> PythonizeTypes {
    PythonizeTypes {
        map: PythonizeMappingType::Dict,
        named_map: PythonizeNamedMappingType::PythonizeUnnamedMappingAdapter(
            PythonizeMappingType::Dict,
        ),
        list: PythonizeListType::List,
    }
}

/// The dynamic object a list strategy builds from encoded elements.
pub open spec fn list_of(t: PythonizeListType, items: Seq<PyVal>) -> PyVal {
    match t {
        PythonizeListType::List => PyVal::List(items),
        PythonizeListType::Tuple => PyVal::Tuple(items),
        PythonizeListType::CustomSequence => PyVal::Sequence(items),
    }
}

/// The dynamic object a mapping strategy builds from encoded entries.
pub open spec fn map_of(t: PythonizeMappingType, entries: Seq<(PyVal, PyVal)>) -> PyVal {
    match t {
        PythonizeMappingType::Dict => PyVal::Dict(entries),
        PythonizeMappingType::CustomMapping => PyVal::Mapping(entries),
    }
}

/// The dynamic object a named-mapping strategy builds: the adapter discards
/// the name, a custom named type brands the mapping with it.
pub open spec fn named_map_of(
    t: PythonizeNamedMappingType,
    name: Seq<char>,
    entries: Seq<(PyVal, PyVal)>,
) -> PyVal {
    match t {
        PythonizeNamedMappingType::PythonizeUnnamedMappingAdapter(m) => map_of(m, entries),
        PythonizeNamedMappingType::CustomNamed => PyVal::NamedMapping(name, entries),
    }
}

/// What the encoder produces for each static value, under a strategy `t`:
/// scalars become the matching dynamic scalars, a char a one-character
/// string, none, unit and unit structs the none sentinel, a unit variant the
/// bare variant-name string; options and newtype structs are transparent;
/// sequences go through the list strategy, tuples and tuple structs are
/// always native tuples, maps go through the mapping strategy, structs
/// through the named-mapping strategy in declared field order; and the three
/// payload-bearing variant forms wrap their payload in a single-entry named
/// mapping keyed by the variant name.
pub open spec fn spec_ser(r: RVal, t: PythonizeTypes) -> PyVal
    decreases r, 0int, 0int,
{
    match r {
        RVal::Bool(b) => PyVal::Bool(b),
        RVal::I8(x) => PyVal::Int(x as int),
        RVal::I16(x) => PyVal::Int(x as int),
        RVal::I32(x) => PyVal::Int(x as int),
        RVal::I64(x) => PyVal::Int(x as int),
        RVal::I128(x) => PyVal::Int(x as int),
        RVal::U8(x) => PyVal::Int(x as int),
        RVal::U16(x) => PyVal::Int(x as int),
        RVal::U32(x) => PyVal::Int(x as int),
        RVal::U64(x) => PyVal::Int(x as int),
        RVal::U128(x) => PyVal::Int(x as int),
        RVal::BigInt(v) => PyVal::Int(v),
        RVal::F32(bits) => PyVal::Float(bits),
        RVal::F64(bits) => PyVal::Float(bits),
        RVal::Char(c) => PyVal::Str(seq![c]),
        RVal::Str(s) => PyVal::Str(s),
        RVal::Bytes(b) => PyVal::Bytes(b),
        RVal::OptionNone => PyVal::Null,
        RVal::OptionSome(inner) => spec_ser(*inner, t),
        RVal::Unit => PyVal::Null,
        RVal::UnitStruct(_name) => PyVal::Null,
        RVal::NewtypeStruct(_name, inner) => spec_ser(*inner, t),
        RVal::Sequence(items) => list_of(t.list, spec_ser_seq(items, t)),
        RVal::Tuple(items) => PyVal::Tuple(spec_ser_seq(items, t)),
        RVal::TupleStruct(_name, items) => PyVal::Tuple(spec_ser_seq(items, t)),
        RVal::Mapping(entries) => map_of(t.map, spec_ser_entries(entries, t)),
        RVal::Struct(name, fields) => named_map_of(t.named_map, name, spec_ser_fields(fields, t)),
        RVal::UnitVariant(_name, variant) => PyVal::Str(variant),
        RVal::NewtypeVariant(name, variant, inner) => named_map_of(
            t.named_map,
            name,
            seq![(PyVal::Str(variant), spec_ser(*inner, t))],
        ),
        RVal::TupleVariant(name, variant, items) => named_map_of(
            t.named_map,
            name,
            seq![(PyVal::Str(variant), PyVal::Tuple(spec_ser_seq(items, t)))],
        ),
        RVal::StructVariant(name, variant, fields) => named_map_of(
            t.named_map,
            name,
            seq![
                (PyVal::Str(variant), named_map_of(t.named_map, variant, spec_ser_fields(fields, t))),
            ],
        ),
    }
}

/// Elementwise encoding of a sequence.
pub open spec fn spec_ser_seq(s: Seq<RVal>, t: PythonizeTypes) -> Seq<PyVal>
    decreases s, 1int, 0int,
{
    if s.len() == 0 {
        Seq::empty()
    } else {
        spec_ser_seq(s.drop_last(), t).push(spec_ser(s.last(), t))
    }
}

/// Pairwise encoding of map entries.
pub open spec fn spec_ser_entries(s: Seq<(RVal, RVal)>, t: PythonizeTypes) -> Seq<(PyVal, PyVal)>
    decreases s, 1int, 0int,
{
    if s.len() == 0 {
        Seq::empty()
    } else {
        spec_ser_entries(s.drop_last(), t).push(
            (spec_ser(s.last().0, t), spec_ser(s.last().1, t)),
        )
    }
}

/// Encoding of named fields, each key the field name as a string, in
/// declared order.
pub open spec fn spec_ser_fields(
    s: Seq<(Seq<char>, RVal)>,
    t: PythonizeTypes,
) -> Seq<(PyVal, PyVal)>
    decreases s, 1int, 0int,
{
    if s.len() == 0 {
        Seq::empty()
    } else {
        spec_ser_fields(s.drop_last(), t).push(
            (PyVal::Str(s.last().0), spec_ser(s.last().1, t)),
        )
    }
}

pub broadcast proof fn lemma_spec_ser_seq(s: Seq<RVal>, t: PythonizeTypes)
    ensures
        (#[trigger] spec_ser_seq(s, t)).len() == s.len(),
        forall|i: int| 0 <= i < s.len() ==> spec_ser_seq(s, t)[i] == spec_ser(s[i], t),
    decreases s.len(),
{
    if s.len() > 0 {
        lemma_spec_ser_seq(s.drop_last(), t);
    }
}

pub broadcast proof fn lemma_spec_ser_entries(s: Seq<(RVal, RVal)>, t: PythonizeTypes)
    ensures
        (#[trigger] spec_ser_entries(s, t)).len() == s.len(),
        forall|i: int| 0 <= i < s.len() ==> spec_ser_entries(s, t)[i] == (
            spec_ser(s[i].0, t),
            spec_ser(s[i].1, t),
        ),
    decreases s.len(),
{
    if s.len() > 0 {
        lemma_spec_ser_entries(s.drop_last(), t);
    }
}

pub broadcast proof fn lemma_spec_ser_fields(s: Seq<(Seq<char>, RVal)>, t: PythonizeTypes)
    ensures
        (#[trigger] spec_ser_fields(s, t)).len() == s.len(),
        forall|i: int| 0 <= i < s.len() ==> spec_ser_fields(s, t)[i] == (
            PyVal::Str(s[i].0),
            spec_ser(s[i].1, t),
        ),
    decreases s.len(),
{
    if s.len() > 0 {
        lemma_spec_ser_fields(s.drop_last(), t);
    }
}

/// A structure that serializes static values into dynamic objects; a plain
/// value wrapping the container strategy, copied freely.
#[derive(Clone, Copy)]
pub struct Pythonizer {
    pub types: PythonizeTypes,
}

impl Pythonizer {
    /// An encoder using the default container strategy.
    pub fn new() -> (r: Pythonizer)
        ensures
            r.types == default_types(),
    {
        Pythonizer { types: PythonizeDefault::types() }
    }

    /// An encoder using a caller-supplied container strategy.
    pub fn custom(types: PythonizeTypes) -> (r: Pythonizer)
        ensures
            r.types == types,
    {
        Pythonizer { types }
    }

    pub fn serialize_bool(&self, v: bool) -> (r: Result<PyValue, PythonizeError>)
        ensures
            r matches Ok(p) && p@ == spec_ser(RVal::Bool(v), self.types) && pv_wf(p),
    {
        Ok(PyValue::Bool(v))
    }

    pub fn serialize_i8(&self, v: i8) -> (r: Result<PyValue, PythonizeError>)
        ensures
            r matches Ok(p) && p@ == spec_ser(RVal::I8(v), self.types) && pv_wf(p),
    {
        Ok(PyValue::Int(PyLong::from_i128(v as i128)))
    }

    pub fn serialize_i16(&self, v: i16) -> (r: Result<PyValue, PythonizeError>)
        ensures
            r matches Ok(p) && p@ == spec_ser(RVal::I16(v), self.types) && pv_wf(p),
    {
        Ok(PyValue::Int(PyLong::from_i128(v as i128)))
    }

    pub fn serialize_i32(&self, v: i32) -> (r: Result<PyValue, PythonizeError>)
        ensures
            r matches Ok(p) && p@ == spec_ser(RVal::I32(v), self.types) && pv_wf(p),
    {
        Ok(PyValue::Int(PyLong::from_i128(v as i128)))
    }

    pub fn serialize_i64(&self, v: i64) -> (r: Result<PyValue, PythonizeError>)
        ensures
            r matches Ok(p) && p@ == spec_ser(RVal::I64(v), self.types) && pv_wf(p),
    {
        Ok(PyValue::Int(PyLong::from_i128(v as i128)))
    }

    pub fn serialize_i128(&self, v: i128) -> (r: Result<PyValue, PythonizeError>)
        ensures
            r matches Ok(p) && p@ == spec_ser(RVal::I128(v), self.types) && pv_wf(p),
    {
        Ok(PyValue::Int(PyLong::from_i128(v)))
    }

    pub fn serialize_u8(&self, v: u8) -> (r: Result<PyValue, PythonizeError>)
        ensures
            r matches Ok(p) && p@ == spec_ser(RVal::U8(v), self.types) && pv_wf(p),
    {
        Ok(PyValue::Int(PyLong::from_u128(v as u128)))
    }

    pub fn serialize_u16(&self, v: u16) -> (r: Result<PyValue, PythonizeError>)
        ensures
            r matches Ok(p) && p@ == spec_ser(RVal::U16(v), self.types) && pv_wf(p),
    {
        Ok(PyValue::Int(PyLong::from_u128(v as u128)))
    }

    pub fn serialize_u32(&self, v: u32) -> (r: Result<PyValue, PythonizeError>)
        ensures
            r matches Ok(p) && p@ == spec_ser(RVal::U32(v), self.types) && pv_wf(p),
    {
        Ok(PyValue::Int(PyLong::from_u128(v as u128)))
    }

    pub fn serialize_u64(&self, v: u64) -> (r: Result<PyValue, PythonizeError>)
        ensures
            r matches Ok(p) && p@ == spec_ser(RVal::U64(v), self.types) && pv_wf(p),
    {
        Ok(PyValue::Int(PyLong::from_u128(v as u128)))
    }

    pub fn serialize_u128(&self, v: u128) -> (r: Result<PyValue, PythonizeError>)
        ensures
            r matches Ok(p) && p@ == spec_ser(RVal::U128(v), self.types) && pv_wf(p),
    {
        Ok(PyValue::Int(PyLong::from_u128(v)))
    }

    /// Encode a single-width float, carried as the double bits it widens to.
    pub fn serialize_f32(&self, bits: u64) -> (r: Result<PyValue, PythonizeError>)
        ensures
            r matches Ok(p) && p@ == spec_ser(RVal::F32(bits), self.types) && pv_wf(p),
    {
        Ok(PyValue::Float(bits))
    }

    /// Encode a double-width float from its IEEE-754 bits.
    pub fn serialize_f64(&self, bits: u64) -> (r: Result<PyValue, PythonizeError>)
        ensures
            r matches Ok(p) && p@ == spec_ser(RVal::F64(bits), self.types) && pv_wf(p),
    {
        Ok(PyValue::Float(bits))
    }

    /// Encode a char as a one-character string.
    pub fn serialize_char(&self, v: char) -> (r: Result<PyValue, PythonizeError>)
        ensures
            r matches Ok(p) && p@ == spec_ser(RVal::Char(v), self.types) && pv_wf(p),
    {
        Ok(PyValue::Str(char_to_string(v)))
    }

    pub fn serialize_str(&self, v: &str) -> (r: Result<PyValue, PythonizeError>)
        ensures
            r matches Ok(p) && p@ == spec_ser(RVal::Str(v@), self.types) && pv_wf(p),
    {
        Ok(PyValue::Str(v.to_owned()))
    }

    pub fn serialize_bytes(&self, v: &[u8]) -> (r: Result<PyValue, PythonizeError>)
        ensures
            r matches Ok(p) && p@ == spec_ser(RVal::Bytes(v@), self.types) && pv_wf(p),
    {
        Ok(PyValue::Bytes(slice_to_vec(v)))
    }

    pub fn serialize_none(&self) -> (r: Result<PyValue, PythonizeError>)
        ensures
            r matches Ok(p) && p@ == spec_ser(RVal::OptionNone, self.types) && pv_wf(p),
    {
        Ok(PyValue::Null)
    }

    /// Encode a present option transparently: the already-encoded payload.
    pub fn serialize_some(&self, value: PyValue) -> (r: Result<PyValue, PythonizeError>)
        ensures
            r matches Ok(p) && p == value,
    {
        Ok(value)
    }

    pub fn serialize_unit(&self) -> (r: Result<PyValue, PythonizeError>)
        ensures
            r matches Ok(p) && p@ == spec_ser(RVal::Unit, self.types) && pv_wf(p),
    {
        Ok(PyValue::Null)
    }

    pub fn serialize_unit_struct(&self, name: &str) -> (r: Result<PyValue, PythonizeError>)
        ensures
            r matches Ok(p) && p@ == spec_ser(RVal::UnitStruct(name@), self.types) && pv_wf(p),
    {
        let _ = name;
        Ok(PyValue::Null)
    }

    /// Encode a unit variant as the bare variant-name string.
    pub fn serialize_unit_variant(&self, name: &str, variant_index: u32, variant: &str) -> (r:
        Result<PyValue, PythonizeError>)
        ensures
            r matches Ok(p) && p@ == spec_ser(RVal::UnitVariant(name@, variant@), self.types)
                && pv_wf(p),
    {
        let _ = name;
        let _ = variant_index;
        Ok(PyValue::Str(variant.to_owned()))
    }

    /// Encode a newtype struct transparently: the already-encoded payload.
    pub fn serialize_newtype_struct(&self, name: &str, value: PyValue) -> (r: Result<
        PyValue,
        PythonizeError,
    >)
        ensures
            r matches Ok(p) && p == value,
    {
        let _ = name;
        Ok(value)
    }

    /// Encode a newtype variant as the tagged single-entry mapping keyed by
    /// the variant name, built by the named-mapping strategy under the
    /// enum's name.
    pub fn serialize_newtype_variant(
        &self,
        name: &str,
        variant_index: u32,
        variant: &str,
        value: PyValue,
    ) -> (r: Result<PyValue, PythonizeError>)
        requires
            pv_wf(value),
        ensures
            r matches Ok(p) && p@ == named_map_of(
                self.types.named_map,
                name@,
                seq![(PyVal::Str(variant@), value@)],
            ) && pv_wf(p),
    {
        let _ = variant_index;
        let mut entries: Vec<(PyValue, PyValue)> = Vec::new();
        entries.push((PyValue::Str(variant.to_owned()), value));
        proof {
            lemma_pv_entries(entries@);
            assert(pv_entries(entries@) =~= seq![
                (PyVal::Str(variant@), entries@[0].1@),
            ]);
        }
        Ok(finish_named(self.types.named_map, name.to_owned(), entries))
    }

    /// Begin a sequence; elements accumulate in a collection builder.
    pub fn serialize_seq(&self, len: Option<usize>) -> (r: PythonCollectionSerializer)
        ensures
            r.types == *self,
            r.items@.len() == 0,
    {
        let _ = len;
        PythonCollectionSerializer { items: Vec::new(), types: *self }
    }

    /// Begin a tuple.
    pub fn serialize_tuple(&self, len: usize) -> (r: PythonCollectionSerializer)
        ensures
            r.types == *self,
            r.items@.len() == 0,
    {
        let _ = len;
        PythonCollectionSerializer { items: Vec::new(), types: *self }
    }

    /// Begin a tuple struct, exactly as a tuple.
    pub fn serialize_tuple_struct(&self, name: &str, len: usize) -> (r: PythonCollectionSerializer)
        ensures
            r.types == *self,
            r.items@.len() == 0,
    {
        let _ = name;
        self.serialize_tuple(len)
    }

    /// Begin a tuple variant: a tuple payload to be wrapped under the
    /// variant name.
    pub fn serialize_tuple_variant(
        &self,
        name: &str,
        variant_index: u32,
        variant: &str,
        len: usize,
    ) -> (r: PythonTupleVariantSerializer)
        ensures
            r.inner.types == *self,
            r.inner.items@.len() == 0,
            r.name@ == name@,
            r.variant@ == variant@,
    {
        let _ = variant_index;
        let inner = self.serialize_tuple(len);
        PythonTupleVariantSerializer { name: name.to_owned(), variant: variant.to_owned(), inner }
    }

    /// Begin a map; keys and values arrive as separate calls and are paired
    /// before insertion.
    pub fn serialize_map(&self, len: Option<usize>) -> (r: PythonMapSerializer)
        ensures
            r.types == *self,
            r.entries@.len() == 0,
            r.key is None,
    {
        let _ = len;
        PythonMapSerializer { entries: Vec::new(), key: None, types: *self }
    }

    /// Begin a struct: named fields accumulate in declared order.
    pub fn serialize_struct(&self, name: &str, len: usize) -> (r: PythonStructDictSerializer)
        ensures
            r.types == *self,
            r.entries@.len() == 0,
            r.name@ == name@,
    {
        let _ = len;
        PythonStructDictSerializer { name: name.to_owned(), entries: Vec::new(), types: *self }
    }

    /// Begin a struct variant: a named mapping built under the variant name,
    /// wrapped under the enum name at the end.
    pub fn serialize_struct_variant(
        &self,
        name: &str,
        variant_index: u32,
        variant: &str,
        len: usize,
    ) -> (r: PythonStructVariantSerializer)
        ensures
            r.inner.types == *self,
            r.inner.entries@.len() == 0,
            r.inner.name@ == variant@,
            r.name@ == name@,
            r.variant@ == variant@,
    {
        let _ = variant_index;
        let inner = self.serialize_struct(variant, len);
        PythonStructVariantSerializer { name: name.to_owned(), variant: variant.to_owned(), inner }
    }
}

/// Finish a sequence through the list strategy.
fn finish_list(t: PythonizeListType, items: Vec<PyValue>) -> (r: PyValue)
    ensures
        r@ == list_of(t, pv_seq(items@)),
        pv_wf(r) == pv_seq_wf(items@),
{
    match t {
        PythonizeListType::List => PyValue::List(items),
        PythonizeListType::Tuple => PyValue::Tuple(items),
        PythonizeListType::CustomSequence => PyValue::Sequence(items),
    }
}

/// Finish a mapping through the mapping strategy.
fn finish_map(t: PythonizeMappingType, entries: Vec<(PyValue, PyValue)>) -> (r: PyValue)
    ensures
        r@ == map_of(t, pv_entries(entries@)),
        pv_wf(r) == pv_entries_wf(entries@),
{
    match t {
        PythonizeMappingType::Dict => PyValue::Dict(entries),
        PythonizeMappingType::CustomMapping => PyValue::Mapping(entries),
    }
}

/// Finish a named mapping through the named-mapping strategy.
fn finish_named(t: PythonizeNamedMappingType, name: String, entries: Vec<(PyValue, PyValue)>) -> (r:
    PyValue)
    ensures
        r@ == named_map_of(t, name@, pv_entries(entries@)),
        pv_wf(r) == pv_entries_wf(entries@),
{
    match t {
        PythonizeNamedMappingType::PythonizeUnnamedMappingAdapter(m) => finish_map(m, entries),
        PythonizeNamedMappingType::CustomNamed => PyValue::NamedMapping(name, entries),
    }
}

/// Accumulates encoded elements of a sequence, tuple or tuple struct.
pub struct PythonCollectionSerializer {
    pub items: Vec<PyValue>,
    pub types: Pythonizer,
}

impl PythonCollectionSerializer {
    /// Push one encoded element.
    pub fn serialize_element(&mut self, value: PyValue)
        ensures
            final(self).items@ == old(self).items@.push(value),
            final(self).types == old(self).types,
    {
        self.items.push(value);
    }

    /// Finish as a sequence, through the list strategy.
    pub fn end(self) -> (r: Result<PyValue, PythonizeError>)
        ensures
            r matches Ok(p) && p@ == list_of(self.types.types.list, pv_seq(self.items@)) && pv_wf(
                p,
            ) == pv_seq_wf(self.items@),
    {
        Ok(finish_list(self.types.types.list, self.items))
    }

    /// Finish as a tuple: tuples are always the native tuple kind.
    pub fn end_tuple(self) -> (r: Result<PyValue, PythonizeError>)
        ensures
            r matches Ok(p) && p@ == PyVal::Tuple(pv_seq(self.items@)) && pv_wf(p) == pv_seq_wf(
                self.items@,
            ),
    {
        Ok(PyValue::Tuple(self.items))
    }
}

/// Accumulates an encoded tuple variant's payload.
pub struct PythonTupleVariantSerializer {
    pub name: String,
    pub variant: String,
    pub inner: PythonCollectionSerializer,
}

impl PythonTupleVariantSerializer {
    /// Push one encoded payload element.
    pub fn serialize_field(&mut self, value: PyValue)
        ensures
            final(self).inner.items@ == old(self).inner.items@.push(value),
            final(self).inner.types == old(self).inner.types,
            final(self).name == old(self).name,
            final(self).variant == old(self).variant,
    {
        self.inner.serialize_element(value);
    }

    /// Finish: the tuple payload wrapped in a single-entry named mapping
    /// keyed by the variant name, under the enum name.
    pub fn end(self) -> (r: Result<PyValue, PythonizeError>)
        requires
            pv_seq_wf(self.inner.items@),
        ensures
            r matches Ok(p) && p@ == named_map_of(
                self.inner.types.types.named_map,
                self.name@,
                seq![(PyVal::Str(self.variant@), PyVal::Tuple(pv_seq(self.inner.items@)))],
            ) && pv_wf(p),
    {
        let types = self.inner.types;
        let payload = match self.inner.end_tuple() {
            Ok(p) => p,
            Err(e) => {
                return Err(e);
            },
        };
        let mut entries: Vec<(PyValue, PyValue)> = Vec::new();
        entries.push((PyValue::Str(clone_string(&self.variant)), payload));
        proof {
            lemma_pv_entries(entries@);
            assert(pv_entries(entries@) =~= seq![
                (PyVal::Str(self.variant@), entries@[0].1@),
            ]);
        }
        Ok(finish_named(types.types.named_map, self.name, entries))
    }
}

/// Accumulates encoded key-value pairs of a map.  A key arrives first and is
/// buffered; the next value is paired with it.  The generic framework never
/// sends a value without a preceding unconsumed key; that protocol is a
/// precondition here, not a recoverable error.
pub struct PythonMapSerializer {
    pub entries: Vec<(PyValue, PyValue)>,
    pub key: Option<PyValue>,
    pub types: Pythonizer,
}

impl PythonMapSerializer {
    /// Buffer an encoded key.
    pub fn serialize_key(&mut self, key: PyValue)
        ensures
            final(self).entries == old(self).entries,
            final(self).key == Some(key),
            final(self).types == old(self).types,
    {
        self.key = Some(key);
    }

    /// Pair the buffered key with an encoded value and append the entry.
    pub fn serialize_value(&mut self, value: PyValue)
        requires
            old(self).key is Some,
        ensures
            final(self).entries@ == old(self).entries@.push(
                (old(self).key->Some_0, value),
            ),
            final(self).key is None,
            final(self).types == old(self).types,
    {
        let k = self.key.take().unwrap();
        self.entries.push((k, value));
    }

    /// Finish as a mapping, through the mapping strategy.
    pub fn end(self) -> (r: Result<PyValue, PythonizeError>)
        ensures
            r matches Ok(p) && p@ == map_of(self.types.types.map, pv_entries(self.entries@))
                && pv_wf(p) == pv_entries_wf(self.entries@),
    {
        Ok(finish_map(self.types.types.map, self.entries))
    }
}

/// Accumulates a struct's encoded fields, each under its declared name, in
/// declaration order.
pub struct PythonStructDictSerializer {
    pub name: String,
    pub entries: Vec<(PyValue, PyValue)>,
    pub types: Pythonizer,
}

impl PythonStructDictSerializer {
    /// Push one named field.
    pub fn serialize_field(&mut self, key: &str, value: PyValue)
        ensures
            pv_entries(final(self).entries@) == pv_entries(old(self).entries@).push(
                (PyVal::Str(key@), value@),
            ),
            pv_entries_wf(final(self).entries@) == (pv_entries_wf(old(self).entries@) && pv_wf(
                value,
            )),
            final(self).name == old(self).name,
            final(self).types == old(self).types,
    {
        let ghost prev = self.entries@;
        let ghost v = value;
        self.entries.push((PyValue::Str(key.to_owned()), value));
        proof {
            lemma_push_str_field(prev, self.entries@, key@, v);
        }
    }

    /// Finish as a named mapping under the struct's name.
    pub fn end(self) -> (r: Result<PyValue, PythonizeError>)
        ensures
            r matches Ok(p) && p@ == named_map_of(
                self.types.types.named_map,
                self.name@,
                pv_entries(self.entries@),
            ) && pv_wf(p) == pv_entries_wf(self.entries@),
    {
        Ok(finish_named(self.types.types.named_map, self.name, self.entries))
    }
}

/// Accumulates a struct variant's encoded fields; the finished mapping is
/// wrapped under the enum name, keyed by the variant name.
pub struct PythonStructVariantSerializer {
    pub name: String,
    pub variant: String,
    pub inner: PythonStructDictSerializer,
}

impl PythonStructVariantSerializer {
    /// Push one named field of the variant's payload.
    pub fn serialize_field(&mut self, key: &str, value: PyValue)
        ensures
            pv_entries(final(self).inner.entries@) == pv_entries(old(self).inner.entries@).push(
                (PyVal::Str(key@), value@),
            ),
            pv_entries_wf(final(self).inner.entries@) == (pv_entries_wf(
                old(self).inner.entries@,
            ) && pv_wf(value)),
            final(self).inner.name == old(self).inner.name,
            final(self).inner.types == old(self).inner.types,
            final(self).name == old(self).name,
            final(self).variant == old(self).variant,
    {
        self.inner.serialize_field(key, value);
    }

    /// Finish: the variant's named mapping wrapped in a single-entry named
    /// mapping keyed by the variant name, under the enum name.
    pub fn end(self) -> (r: Result<PyValue, PythonizeError>)
        requires
            pv_entries_wf(self.inner.entries@),
        ensures
            r matches Ok(p) && p@ == named_map_of(
                self.inner.types.types.named_map,
                self.name@,
                seq![
                    (
                        PyVal::Str(self.variant@),
                        named_map_of(
                            self.inner.types.types.named_map,
                            self.inner.name@,
                            pv_entries(self.inner.entries@),
                        ),
                    ),
                ],
            ) && pv_wf(p),
    {
        let types = self.inner.types;
        let payload = match self.inner.end() {
            Ok(p) => p,
            Err(e) => {
                return Err(e);
            },
        };
        let mut entries: Vec<(PyValue, PyValue)> = Vec::new();
        entries.push((PyValue::Str(clone_string(&self.variant)), payload));
        proof {
            lemma_pv_entries(entries@);
            assert(pv_entries(entries@) =~= seq![
                (PyVal::Str(self.variant@), entries@[0].1@),
            ]);
        }
        Ok(finish_named(types.types.named_map, self.name, entries))
    }
}

/// Attempt to convert a static value into a dynamic object using the
/// default container strategy.
pub fn pythonize(value: &RustValue) -> (r: Result<PyValue, PythonizeError>)
    requires
        rv_wf(*value),
    ensures
        r matches Ok(p) && p@ == spec_ser(rv(*value), default_types()) && pv_wf(p),
{
    ser_value(value, PythonizeDefault::types())
}

/// Attempt to convert a static value into a dynamic object using a custom
/// container strategy.
pub fn pythonize_custom(types: PythonizeTypes, value: &RustValue) -> (r: Result<
    PyValue,
    PythonizeError,
>)
    requires
        rv_wf(*value),
    ensures
        r matches Ok(p) && p@ == spec_ser(rv(*value), types) && pv_wf(p),
{
    ser_value(value, types)
}

/// Encode one static value, recursively, under a strategy.
fn ser_value(v: &RustValue, t: PythonizeTypes) -> (r: Result<PyValue, PythonizeError>)
    requires
        rv_wf(*v),
    ensures
        r matches Ok(p) && p@ == spec_ser(rv(*v), t) && pv_wf(p),
    decreases *v, 0int, 0int,
{
    let s = Pythonizer::custom(t);
    match v {
        RustValue::Bool(b) => s.serialize_bool(*b),
        RustValue::I8(x) => s.serialize_i8(*x),
        RustValue::I16(x) => s.serialize_i16(*x),
        RustValue::I32(x) => s.serialize_i32(*x),
        RustValue::I64(x) => s.serialize_i64(*x),
        RustValue::I128(x) => s.serialize_i128(*x),
        RustValue::U8(x) => s.serialize_u8(*x),
        RustValue::U16(x) => s.serialize_u16(*x),
        RustValue::U32(x) => s.serialize_u32(*x),
        RustValue::U64(x) => s.serialize_u64(*x),
        RustValue::U128(x) => s.serialize_u128(*x),
        RustValue::BigInt(l) => Ok(PyValue::Int(PyLong { neg: l.neg, mag: clone_mag(&l.mag) })),
        RustValue::F32(bits) => s.serialize_f32(*bits),
        RustValue::F64(bits) => s.serialize_f64(*bits),
        RustValue::Char(c) => s.serialize_char(*c),
        RustValue::Str(string) => s.serialize_str(string.as_str()),
        RustValue::Bytes(b) => s.serialize_bytes(b.as_slice()),
        RustValue::OptionNone => s.serialize_none(),
        RustValue::OptionSome(inner) => match ser_value(&*inner, t) {
            Ok(p) => s.serialize_some(p),
            Err(e) => Err(e),
        },
        RustValue::Unit => s.serialize_unit(),
        RustValue::UnitStruct(name) => s.serialize_unit_struct(name.as_str()),
        RustValue::NewtypeStruct(name, inner) => match ser_value(&*inner, t) {
            Ok(p) => s.serialize_newtype_struct(name.as_str(), p),
            Err(e) => Err(e),
        },
        RustValue::Sequence(items) => ser_list(items, t),
        RustValue::Tuple(items) => ser_tuple(items, t),
        RustValue::TupleStruct(_name, items) => ser_tuple(items, t),
        RustValue::Mapping(entries) => ser_mapping(entries, t),
        RustValue::Struct(name, fields) => ser_struct(name.as_str(), fields, t),
        RustValue::UnitVariant(name, variant) => s.serialize_unit_variant(
            name.as_str(),
            0,
            variant.as_str(),
        ),
        RustValue::NewtypeVariant(name, variant, inner) => match ser_value(&*inner, t) {
            Ok(p) => s.serialize_newtype_variant(name.as_str(), 0, variant.as_str(), p),
            Err(e) => Err(e),
        },
        RustValue::TupleVariant(name, variant, items) => ser_tuple_variant(name, variant, items, t),
        RustValue::StructVariant(name, variant, fields) => ser_struct_variant(
            name,
            variant,
            fields,
            t,
        ),
    }
}

/// Encode a sequence through the list strategy.
fn ser_list(items: &Vec<RustValue>, t: PythonizeTypes) -> (r: Result<PyValue, PythonizeError>)
    requires
        rv_seq_wf(items@),
    ensures
        r matches Ok(p) && p@ == list_of(t.list, spec_ser_seq(rv_seq(items@), t)) && pv_wf(p),
    decreases *items, 1int, 0int,
{
    let b = match ser_seq_prefix(items, items.len(), t) {
        Ok(b) => b,
        Err(e) => {
            return Err(e);
        },
    };
    proof {
        lemma_rv_seq(items@);
        assert(rv_seq(items@).take(items@.len() as int) =~= rv_seq(items@));
    }
    b.end()
}

/// Encode a tuple or tuple struct: always the native tuple kind.
fn ser_tuple(items: &Vec<RustValue>, t: PythonizeTypes) -> (r: Result<PyValue, PythonizeError>)
    requires
        rv_seq_wf(items@),
    ensures
        r matches Ok(p) && p@ == PyVal::Tuple(spec_ser_seq(rv_seq(items@), t)) && pv_wf(p),
    decreases *items, 1int, 0int,
{
    let b = match ser_seq_prefix(items, items.len(), t) {
        Ok(b) => b,
        Err(e) => {
            return Err(e);
        },
    };
    proof {
        lemma_rv_seq(items@);
        assert(rv_seq(items@).take(items@.len() as int) =~= rv_seq(items@));
    }
    b.end_tuple()
}

/// Encode a map through the mapping strategy.
fn ser_mapping(entries: &Vec<(RustValue, RustValue)>, t: PythonizeTypes) -> (r: Result<
    PyValue,
    PythonizeError,
>)
    requires
        rv_entries_wf(entries@),
    ensures
        r matches Ok(p) && p@ == map_of(t.map, spec_ser_entries(rv_entries(entries@), t)) && pv_wf(
            p,
        ),
    decreases *entries, 1int, 0int,
{
    let b = match ser_entries_prefix(entries, entries.len(), t) {
        Ok(b) => b,
        Err(e) => {
            return Err(e);
        },
    };
    proof {
        lemma_rv_entries(entries@);
        assert(rv_entries(entries@).take(entries@.len() as int) =~= rv_entries(entries@));
    }
    b.end()
}

/// Encode a struct's fields, in declared order, under the struct's name.
fn ser_struct(name: &str, fields: &Vec<(String, RustValue)>, t: PythonizeTypes) -> (r: Result<
    PyValue,
    PythonizeError,
>)
    requires
        rv_fields_wf(fields@),
    ensures
        r matches Ok(p) && p@ == named_map_of(
            t.named_map,
            name@,
            spec_ser_fields(rv_fields(fields@), t),
        ) && pv_wf(p),
    decreases *fields, 1int, 0int,
{
    let b = match ser_fields_prefix(name, fields, fields.len(), t) {
        Ok(b) => b,
        Err(e) => {
            return Err(e);
        },
    };
    proof {
        lemma_rv_fields(fields@);
        assert(rv_fields(fields@).take(fields@.len() as int) =~= rv_fields(fields@));
    }
    b.end()
}

/// Encode a tuple variant: the tuple payload wrapped under the variant
/// name.
fn ser_tuple_variant(
    name: &String,
    variant: &String,
    items: &Vec<RustValue>,
    t: PythonizeTypes,
) -> (r: Result<PyValue, PythonizeError>)
    requires
        rv_seq_wf(items@),
    ensures
        r matches Ok(p) && p@ == named_map_of(
            t.named_map,
            name@,
            seq![(PyVal::Str(variant@), PyVal::Tuple(spec_ser_seq(rv_seq(items@), t)))],
        ) && pv_wf(p),
    decreases *items, 1int, 0int,
{
    let b = match ser_seq_prefix(items, items.len(), t) {
        Ok(b) => b,
        Err(e) => {
            return Err(e);
        },
    };
    proof {
        lemma_rv_seq(items@);
        assert(rv_seq(items@).take(items@.len() as int) =~= rv_seq(items@));
    }
    let w = PythonTupleVariantSerializer {
        name: clone_string(name),
        variant: clone_string(variant),
        inner: b,
    };
    w.end()
}

/// Encode a struct variant: the variant's named mapping wrapped under the
/// variant name.
fn ser_struct_variant(
    name: &String,
    variant: &String,
    fields: &Vec<(String, RustValue)>,
    t: PythonizeTypes,
) -> (r: Result<PyValue, PythonizeError>)
    requires
        rv_fields_wf(fields@),
    ensures
        r matches Ok(p) && p@ == named_map_of(
            t.named_map,
            name@,
            seq![
                (
                    PyVal::Str(variant@),
                    named_map_of(t.named_map, variant@, spec_ser_fields(rv_fields(fields@), t)),
                ),
            ],
        ) && pv_wf(p),
    decreases *fields, 1int, 0int,
{
    let b = match ser_fields_prefix(variant.as_str(), fields, fields.len(), t) {
        Ok(b) => b,
        Err(e) => {
            return Err(e);
        },
    };
    proof {
        lemma_rv_fields(fields@);
        assert(rv_fields(fields@).take(fields@.len() as int) =~= rv_fields(fields@));
    }
    let w = PythonStructVariantSerializer {
        name: clone_string(name),
        variant: clone_string(variant),
        inner: b,
    };
    w.end()
}

/// Encode the first `end` elements into a collection builder, in order.
fn ser_seq_prefix(items: &Vec<RustValue>, end: usize, t: PythonizeTypes) -> (r: Result<
    PythonCollectionSerializer,
    PythonizeError,
>)
    requires
        rv_seq_wf(items@),
        end <= items@.len(),
    ensures
        r matches Ok(b) && {
            &&& b.types.types == t
            &&& pv_seq(b.items@) == spec_ser_seq(rv_seq(items@).take(end as int), t)
            &&& pv_seq_wf(b.items@)
            &&& b.items@.len() == end
        },
    decreases *items, 0int, end,
{
    proof {
        lemma_rv_seq(items@);
    }
    if end == 0 {
        proof {
            assert(rv_seq(items@).take(0) =~= Seq::<RVal>::empty());
            assert(pv_seq(Seq::<PyValue>::empty()) =~= Seq::<PyVal>::empty());
        }
        Ok(Pythonizer::custom(t).serialize_seq(None))
    } else {
        let mut b = match ser_seq_prefix(items, end - 1, t) {
            Ok(b) => b,
            Err(e) => {
                return Err(e);
            },
        };
        let p = match ser_value(&items[end - 1], t) {
            Ok(p) => p,
            Err(e) => {
                return Err(e);
            },
        };
        let ghost prev = b.items@;
        let ghost pg = p;
        b.serialize_element(p);
        proof {
            assert(rv_seq(items@).take(end as int).drop_last() =~= rv_seq(items@).take(end - 1));
            assert(rv_seq(items@).take(end as int).last() == rv(items@[end - 1]));
            lemma_pv_seq(prev);
            lemma_pv_seq(b.items@);
            assert(b.items@.drop_last() =~= prev);
            assert(pv_seq(b.items@) =~= pv_seq(prev).push(pg@));
            assert forall|j: int| 0 <= j < b.items@.len() implies pv_wf(#[trigger] b.items@[j]) by {
                if j < prev.len() {
                    assert(b.items@[j] == prev[j]);
                    assert(pv_wf(prev[j]));
                } else {
                    assert(b.items@[j] == pg);
                }
            }
        }
        Ok(b)
    }
}

/// Encode the first `end` map entries into a map builder, each key buffered
/// then paired with its value.
fn ser_entries_prefix(entries: &Vec<(RustValue, RustValue)>, end: usize, t: PythonizeTypes) -> (r:
    Result<PythonMapSerializer, PythonizeError>)
    requires
        rv_entries_wf(entries@),
        end <= entries@.len(),
    ensures
        r matches Ok(b) && {
            &&& b.types.types == t
            &&& b.key is None
            &&& pv_entries(b.entries@) == spec_ser_entries(rv_entries(entries@).take(end as int), t)
            &&& pv_entries_wf(b.entries@)
            &&& b.entries@.len() == end
        },
    decreases *entries, 0int, end,
{
    proof {
        lemma_rv_entries(entries@);
    }
    if end == 0 {
        proof {
            assert(rv_entries(entries@).take(0) =~= Seq::<(RVal, RVal)>::empty());
            assert(pv_entries(Seq::<(PyValue, PyValue)>::empty()) =~= Seq::<(PyVal, PyVal)>::empty());
        }
        Ok(Pythonizer::custom(t).serialize_map(None))
    } else {
        let mut b = match ser_entries_prefix(entries, end - 1, t) {
            Ok(b) => b,
            Err(e) => {
                return Err(e);
            },
        };
        let k = match ser_value(&entries[end - 1].0, t) {
            Ok(k) => k,
            Err(e) => {
                return Err(e);
            },
        };
        let val = match ser_value(&entries[end - 1].1, t) {
            Ok(val) => val,
            Err(e) => {
                return Err(e);
            },
        };
        let ghost prev = b.entries@;
        let ghost kg = k;
        let ghost vg = val;
        b.serialize_key(k);
        b.serialize_value(val);
        proof {
            assert(rv_entries(entries@).take(end as int).drop_last() =~= rv_entries(entries@).take(
                end - 1,
            ));
            assert(rv_entries(entries@).take(end as int).last() == (
                rv(entries@[end - 1].0),
                rv(entries@[end - 1].1),
            ));
            lemma_pv_entries(prev);
            lemma_pv_entries(b.entries@);
            assert(b.entries@.drop_last() =~= prev);
            assert(pv_entries(b.entries@) =~= pv_entries(prev).push((kg@, vg@)));
            assert forall|j: int| 0 <= j < b.entries@.len() implies pv_wf(
                (#[trigger] b.entries@[j]).0,
            ) && pv_wf(b.entries@[j].1) by {
                if j < prev.len() {
                    assert(b.entries@[j] == prev[j]);
                    assert(pv_wf(prev[j].0) && pv_wf(prev[j].1));
                } else {
                    assert(b.entries@[j] == (kg, vg));
                }
            }
        }
        Ok(b)
    }
}

/// Encode the first `end` named fields into a struct builder, in declared
/// order, under the given struct name.
fn ser_fields_prefix(
    name: &str,
    fields: &Vec<(String, RustValue)>,
    end: usize,
    t: PythonizeTypes,
) -> (r: Result<PythonStructDictSerializer, PythonizeError>)
    requires
        rv_fields_wf(fields@),
        end <= fields@.len(),
    ensures
        r matches Ok(b) && {
            &&& b.types.types == t
            &&& b.name@ == name@
            &&& pv_entries(b.entries@) == spec_ser_fields(rv_fields(fields@).take(end as int), t)
            &&& pv_entries_wf(b.entries@)
            &&& b.entries@.len() == end
        },
    decreases *fields, 0int, end,
{
    proof {
        lemma_rv_fields(fields@);
    }
    if end == 0 {
        proof {
            assert(rv_fields(fields@).take(0) =~= Seq::<(Seq<char>, RVal)>::empty());
            assert(pv_entries(Seq::<(PyValue, PyValue)>::empty()) =~= Seq::<(PyVal, PyVal)>::empty());
        }
        Ok(Pythonizer::custom(t).serialize_struct(name, 0))
    } else {
        let mut b = match ser_fields_prefix(name, fields, end - 1, t) {
            Ok(b) => b,
            Err(e) => {
                return Err(e);
            },
        };
        let p = match ser_value(&fields[end - 1].1, t) {
            Ok(p) => p,
            Err(e) => {
                return Err(e);
            },
        };
        let ghost prevlen = b.entries@.len();
        b.serialize_field(fields[end - 1].0.as_str(), p);
        proof {
            assert(rv_fields(fields@).take(end as int).drop_last() =~= rv_fields(fields@).take(
                end - 1,
            ));
            assert(rv_fields(fields@).take(end as int).last() == (
                fields@[end - 1].0@,
                rv(fields@[end - 1].1),
            ));
            assert(spec_ser_fields(rv_fields(fields@).take(end as int), t) == spec_ser_fields(
                rv_fields(fields@).take(end - 1),
                t,
            ).push((PyVal::Str(fields@[end - 1].0@), spec_ser(rv(fields@[end - 1].1), t))));
            lemma_pv_entries(b.entries@);
            lemma_spec_ser_fields(rv_fields(fields@).take(end as int), t);
        }
        Ok(b)
    }
}

/// Clone a magnitude, keeping its bytes.
fn clone_mag(b: &Vec<u8>) -> (r: Vec<u8>)
    ensures
        r@ == b@,
{
    let mut out: Vec<u8> = Vec::new();
    let mut i: usize = 0;
    while i < b.len()
        invariant
            i <= b@.len(),
            out@ == b@.take(i as int),
        decreases b@.len() - i,
    {
        out.push(b[i]);
        proof {
            assert(out@ =~= b@.take(i + 1));
        }
        i = i + 1;
    }
    proof {
        assert(b@.take(b@.len() as int) =~= b@);
    }
    out
}

/// The effect of appending one string-keyed entry, seen through the views.
proof fn lemma_push_str_field(
    prev: Seq<(PyValue, PyValue)>,
    now: Seq<(PyValue, PyValue)>,
    key: Seq<char>,
    value: PyValue,
)
    requires
        now.len() == prev.len() + 1,
        forall|j: int| 0 <= j < prev.len() ==> now[j] == prev[j],
        now.last().0 is Str,
        now.last().0@ == PyVal::Str(key),
        now.last().1 == value,
    ensures
        pv_entries(now) == pv_entries(prev).push((PyVal::Str(key), value@)),
        pv_entries_wf(now) == (pv_entries_wf(prev) && pv_wf(value)),
{
    lemma_pv_entries(prev);
    lemma_pv_entries(now);
    assert(now.drop_last() =~= prev);
    assert(pv_entries(now) =~= pv_entries(prev).push((PyVal::Str(key), value@)));
    assert(pv_wf(now.last().0));
    if pv_entries_wf(prev) && pv_wf(value) {
        assert forall|j: int| 0 <= j < now.len() implies pv_wf((#[trigger] now[j]).0) && pv_wf(
            now[j].1,
        ) by {
            if j < prev.len() {
                assert(now[j] == prev[j]);
                assert(pv_wf(prev[j].0) && pv_wf(prev[j].1));
            } else {
                assert(now[j] == now.last());
            }
        }
    }
    if pv_entries_wf(now) {
        assert forall|j: int| 0 <= j < prev.len() implies pv_wf((#[trigger] prev[j]).0) && pv_wf(
            prev[j].1,
        ) by {
            assert(prev[j] == now[j]);
            assert(pv_wf(now[j].0) && pv_wf(now[j].1));
        }
        assert(pv_wf(now.last().1));
    }
}

/// One character as a string.  Relies on `char::to_string` of std: the
/// result is exactly that one character.
#[verifier::external_body]
fn char_to_string(c: char) -> (r: String)
    ensures
        r@ == seq![c],
{
    c.to_string()
}

/// Clone a string, keeping its view.
fn clone_string(s: &String) -> (r: String)
    ensures
        r@ == s@,
{
    s.clone()
}

} // verus!
