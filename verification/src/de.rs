//! The decoder: dynamic objects to static values.
//!
//! A [`Depythonizer`] wraps one dynamic object and offers one extraction
//! method per call of the generic deserialization visitor contract.  Nested
//! positions are reached through sub-cursors ([`PySequenceAccess`],
//! [`PySetAsSequence`], [`PyMappingAccess`], [`PyEnumAccess`]), each of which
//! hands out the sub-object for a fresh decoder, never mutating the input.
use vstd::prelude::*;
use vstd::string::*;

use crate::error::{PyErr, PyErrKind, PyErrV, PythonizeError, SErr};
use crate::long::PyLong;
use crate::value::{
    pv, pv_entries, pv_seq, pv_wf, lemma_pv_entries, lemma_pv_seq, pv_entries_wf, pv_seq_wf,
    rv_entries, rv_entries_wf, rv_seq, rv_seq_wf, lemma_rv_entries, lemma_rv_seq,
    PyVal, PyValue, rv, rv_wf, RVal, RustValue,
};

verus! {

/// The runtime kind name a dynamic object reports, as the host runtime
/// names its types.
pub open spec fn kind_name(p: PyVal) -> Seq<char> {
    match p {
        PyVal::Null => "NoneType"@,
        PyVal::Bool(_) => "bool"@,
        PyVal::Int(_) => "int"@,
        PyVal::Float(_) => "float"@,
        PyVal::Str(_) => "str"@,
        PyVal::Bytes(_) => "bytes"@,
        PyVal::ByteArray(_) => "bytearray"@,
        PyVal::List(_) => "list"@,
        PyVal::Tuple(_) => "tuple"@,
        PyVal::Dict(_) => "dict"@,
        PyVal::PySet(_) => "set"@,
        PyVal::FrozenSet(_) => "frozenset"@,
        PyVal::Sequence(_) => "sequence"@,
        PyVal::Mapping(_) => "mapping"@,
        PyVal::NamedMapping(_, _) => "mapping"@,
        PyVal::Other(name) => name,
    }
}

/// The truth value the host runtime assigns to an object: none, false, a
/// zero number and an empty string or container are false; everything else,
/// an unknown object included, is true.  A float is false exactly on the two
/// IEEE-754 zero bit patterns.
pub open spec fn truthy(p: PyVal) -> bool {
    match p {
        PyVal::Null => false,
        PyVal::Bool(b) => b,
        PyVal::Int(v) => v != 0,
        PyVal::Float(bits) => bits != 0 && bits != 0x8000_0000_0000_0000u64,
        PyVal::Str(s) => s.len() > 0,
        PyVal::Bytes(b) => b.len() > 0,
        PyVal::ByteArray(b) => b.len() > 0,
        PyVal::List(items) => items.len() > 0,
        PyVal::Tuple(items) => items.len() > 0,
        PyVal::Dict(entries) => entries.len() > 0,
        PyVal::PySet(items) => items.len() > 0,
        PyVal::FrozenSet(items) => items.len() > 0,
        PyVal::Sequence(items) => items.len() > 0,
        PyVal::Mapping(entries) => entries.len() > 0,
        PyVal::NamedMapping(_, entries) => entries.len() > 0,
        PyVal::Other(_) => true,
    }
}

/// Width selection for an untyped integer: the narrowest fixed width that
/// holds the value losslessly, unsigned widths first when the value is
/// non-negative; a value beyond every fixed width is handed to the
/// arbitrary-precision consumer unchanged.
pub open spec fn any_int(v: int) -> RVal {
    if 0 <= v {
        if v <= u8::MAX {
            RVal::U8(v as u8)
        } else if v <= u16::MAX {
            RVal::U16(v as u16)
        } else if v <= u32::MAX {
            RVal::U32(v as u32)
        } else if v <= u64::MAX {
            RVal::U64(v as u64)
        } else if v <= u128::MAX {
            RVal::U128(v as u128)
        } else {
            RVal::BigInt(v)
        }
    } else {
        if v >= i8::MIN {
            RVal::I8(v as i8)
        } else if v >= i16::MIN {
            RVal::I16(v as i16)
        } else if v >= i32::MIN {
            RVal::I32(v as i32)
        } else if v >= i64::MIN {
            RVal::I64(v as i64)
        } else if v >= i128::MIN {
            RVal::I128(v as i128)
        } else {
            RVal::BigInt(v)
        }
    }
}

/// What an untyped decode produces for each dynamic object, classified by
/// runtime kind: the unit for none, a width-narrowed integer, bytes for both
/// bytes-like kinds, a sequence for list, tuple, set, frozenset and generic
/// sequences, a mapping for dict and generic mappings, and an
/// unsupported-type error for anything else.  The first failure anywhere in
/// the object wins.
pub open spec fn spec_any(p: PyVal) -> Result<RVal, SErr>
    decreases p,
{
    match p {
        PyVal::Null => Ok(RVal::Unit),
        PyVal::Bool(b) => Ok(RVal::Bool(b)),
        PyVal::Int(v) => Ok(any_int(v)),
        PyVal::Float(bits) => Ok(RVal::F64(bits)),
        PyVal::Str(s) => Ok(RVal::Str(s)),
        PyVal::Bytes(b) => Ok(RVal::Bytes(b)),
        PyVal::ByteArray(b) => Ok(RVal::Bytes(b)),
        PyVal::List(items) => match spec_any_items(items) {
            Ok(out) => Ok(RVal::Sequence(out)),
            Err(e) => Err(e),
        },
        PyVal::Tuple(items) => match spec_any_items(items) {
            Ok(out) => Ok(RVal::Sequence(out)),
            Err(e) => Err(e),
        },
        PyVal::PySet(items) => match spec_any_items(items) {
            Ok(out) => Ok(RVal::Sequence(out)),
            Err(e) => Err(e),
        },
        PyVal::FrozenSet(items) => match spec_any_items(items) {
            Ok(out) => Ok(RVal::Sequence(out)),
            Err(e) => Err(e),
        },
        PyVal::Sequence(items) => match spec_any_items(items) {
            Ok(out) => Ok(RVal::Sequence(out)),
            Err(e) => Err(e),
        },
        PyVal::Dict(entries) => match spec_any_entries(entries) {
            Ok(out) => Ok(RVal::Mapping(out)),
            Err(e) => Err(e),
        },
        PyVal::Mapping(entries) => match spec_any_entries(entries) {
            Ok(out) => Ok(RVal::Mapping(out)),
            Err(e) => Err(e),
        },
        PyVal::NamedMapping(_name, entries) => match spec_any_entries(entries) {
            Ok(out) => Ok(RVal::Mapping(out)),
            Err(e) => Err(e),
        },
        PyVal::Other(name) => Err(SErr::UnsupportedType(name)),
    }
}

/// Untyped decode of a sequence of elements, in order; the first failure
/// wins.
pub open spec fn spec_any_items(s: Seq<PyVal>) -> Result<Seq<RVal>, SErr>
    decreases s,
{
    if s.len() == 0 {
        Ok(Seq::empty())
    } else {
        match spec_any_items(s.drop_last()) {
            Err(e) => Err(e),
            Ok(rest) => match spec_any(s.last()) {
                Err(e) => Err(e),
                Ok(v) => Ok(rest.push(v)),
            },
        }
    }
}

/// Untyped decode of mapping entries, keys before values within each entry;
/// the first failure wins.
pub open spec fn spec_any_entries(s: Seq<(PyVal, PyVal)>) -> Result<Seq<(RVal, RVal)>, SErr>
    decreases s,
{
    if s.len() == 0 {
        Ok(Seq::empty())
    } else {
        match spec_any_entries(s.drop_last()) {
            Err(e) => Err(e),
            Ok(rest) => match spec_any(s.last().0) {
                Err(e) => Err(e),
                Ok(k) => match spec_any(s.last().1) {
                    Err(e) => Err(e),
                    Ok(v) => Ok(rest.push((k, v))),
                },
            },
        }
    }
}

/// An integer extracted from a dynamic object, before any range check: an
/// int yields its value, a bool its truth value as zero or one, and any
/// other kind refuses.
pub open spec fn spec_int_value(p: PyVal) -> Option<int> {
    match p {
        PyVal::Int(v) => Some(v),
        PyVal::Bool(b) => Some(if b { 1int } else { 0int }),
        _ => None,
    }
}

/// The host exception for an integer coercion out of range.
pub open spec fn overflow_err() -> PyErrV {
    PyErrV {
        kind: PyErrKind::OverflowError,
        message: "out of range integral type conversion attempted"@,
    }
}

/// The host exception for extracting an integer from a non-numeric object.
pub open spec fn int_type_err(p: PyVal) -> PyErrV {
    PyErrV {
        kind: PyErrKind::TypeError,
        message: kind_name(p) + " object cannot be interpreted as an integer"@,
    }
}

/// Typed integer extraction into the inclusive range `lo ..= hi`.
pub open spec fn spec_extract_int(p: PyVal, lo: int, hi: int) -> Result<int, SErr> {
    match spec_int_value(p) {
        None => Err(SErr::HostErr(int_type_err(p))),
        Some(v) => if lo <= v && v <= hi {
            Ok(v)
        } else {
            Err(SErr::HostErr(overflow_err()))
        },
    }
}

/// The view of a decode outcome.
pub open spec fn dec_view<T: View>(r: Result<T, PythonizeError>) -> Result<T::V, SErr> {
    match r {
        Ok(v) => Ok(v@),
        Err(e) => Err(e@),
    }
}

/// A structure that deserializes dynamic objects into static values.  It
/// wraps exactly one object; a fresh decoder is built for every structural
/// descent.
pub struct Depythonizer<'a> {
    pub input: &'a PyValue,
}

impl<'a> Depythonizer<'a> {
    /// Create a decoder from a dynamic object.
    pub fn from_object(input: &'a PyValue) -> (r: Depythonizer<'a>)
        ensures
            r.input == input,
    {
        Depythonizer { input }
    }

    /// The host runtime's name for the wrapped object's type.
    pub fn kind_name_of(&self) -> (r: String)
        ensures
            r@ == kind_name(self.input@),
    {
        match self.input {
            PyValue::Null => String::from_str("NoneType"),
            PyValue::Bool(_) => String::from_str("bool"),
            PyValue::Int(_) => String::from_str("int"),
            PyValue::Float(_) => String::from_str("float"),
            PyValue::Str(_) => String::from_str("str"),
            PyValue::Bytes(_) => String::from_str("bytes"),
            PyValue::ByteArray(_) => String::from_str("bytearray"),
            PyValue::List(_) => String::from_str("list"),
            PyValue::Tuple(_) => String::from_str("tuple"),
            PyValue::Dict(_) => String::from_str("dict"),
            PyValue::PySet(_) => String::from_str("set"),
            PyValue::FrozenSet(_) => String::from_str("frozenset"),
            PyValue::Sequence(_) => String::from_str("sequence"),
            PyValue::Mapping(_) => String::from_str("mapping"),
            PyValue::NamedMapping(_, _) => String::from_str("mapping"),
            PyValue::Other(name) => clone_str(name),
        }
    }

    fn unexpected(&self) -> (r: PythonizeError)
        ensures
            r@ == SErr::UnexpectedType(kind_name(self.input@)),
    {
        PythonizeError::unexpected_type(self.kind_name_of())
    }

    fn int_type_error(&self) -> (r: PythonizeError)
        ensures
            r@ == SErr::HostErr(int_type_err(self.input@)),
    {
        let mut m = self.kind_name_of();
        m.append(" object cannot be interpreted as an integer");
        PythonizeError::host(PyErr::new(PyErrKind::TypeError, m))
    }

    /// Decode a boolean by the host's truthiness rule: defined for every
    /// object.
    pub fn deserialize_bool(&self) -> (r: Result<bool, PythonizeError>)
        requires
            pv_wf(*self.input),
        ensures
            r == Ok::<bool, PythonizeError>(truthy(self.input@)),
    {
        let b = match self.input {
            PyValue::Null => false,
            PyValue::Bool(b) => *b,
            PyValue::Int(l) => !l.is_zero(),
            PyValue::Float(bits) => *bits != 0 && *bits != 0x8000_0000_0000_0000u64,
            PyValue::Str(s) => str_len_positive(s),
            PyValue::Bytes(b) => b.len() > 0,
            PyValue::ByteArray(b) => b.len() > 0,
            PyValue::List(items) => items.len() > 0,
            PyValue::Tuple(items) => items.len() > 0,
            PyValue::Dict(entries) => entries.len() > 0,
            PyValue::PySet(items) => items.len() > 0,
            PyValue::FrozenSet(items) => items.len() > 0,
            PyValue::Sequence(items) => items.len() > 0,
            PyValue::Mapping(entries) => entries.len() > 0,
            PyValue::NamedMapping(_, entries) => entries.len() > 0,
            PyValue::Other(_) => true,
        };
        Ok(b)
    }

    /// Decode a char: a string of exactly one character.
    pub fn deserialize_char(&self) -> (r: Result<char, PythonizeError>)
        ensures
            match r {
                Ok(c) => self.input@ matches PyVal::Str(s) && s.len() == 1 && c == s[0],
                Err(e) => match self.input@ {
                    PyVal::Str(s) => s.len() != 1 && e@ == SErr::InvalidLengthChar,
                    p => e@ == SErr::UnexpectedType(kind_name(p)),
                },
            },
    {
        match self.input {
            PyValue::Str(s) => {
                let n = s.as_str().unicode_len();
                if n != 1 {
                    Err(PythonizeError::invalid_length_char())
                } else {
                    Ok(s.as_str().get_char(0))
                }
            },
            _ => Err(self.unexpected()),
        }
    }

    /// Decode a string; the object must be string-typed.
    pub fn deserialize_str(&self) -> (r: Result<String, PythonizeError>)
        ensures
            dec_view(r) == match self.input@ {
                PyVal::Str(s) => Ok::<Seq<char>, SErr>(s),
                p => Err(SErr::UnexpectedType(kind_name(p))),
            },
    {
        match self.input {
            PyValue::Str(s) => Ok(clone_str(s)),
            _ => Err(self.unexpected()),
        }
    }

    /// Decode an owned string.
    pub fn deserialize_string(&self) -> (r: Result<String, PythonizeError>)
        ensures
            dec_view(r) == match self.input@ {
                PyVal::Str(s) => Ok::<Seq<char>, SErr>(s),
                p => Err(SErr::UnexpectedType(kind_name(p))),
            },
    {
        self.deserialize_str()
    }

    /// Decode a byte string from either bytes-like kind.
    pub fn deserialize_bytes(&self) -> (r: Result<Vec<u8>, PythonizeError>)
        ensures
            dec_view(r) == match self.input@ {
                PyVal::Bytes(b) => Ok::<Seq<u8>, SErr>(b),
                PyVal::ByteArray(b) => Ok::<Seq<u8>, SErr>(b),
                p => Err(SErr::UnexpectedType(kind_name(p))),
            },
    {
        match self.input {
            PyValue::Bytes(b) => Ok(clone_bytes(b)),
            PyValue::ByteArray(b) => Ok(clone_bytes(b)),
            _ => Err(self.unexpected()),
        }
    }

    /// Decode an owned byte buffer.
    pub fn deserialize_byte_buf(&self) -> (r: Result<Vec<u8>, PythonizeError>)
        ensures
            dec_view(r) == match self.input@ {
                PyVal::Bytes(b) => Ok::<Seq<u8>, SErr>(b),
                PyVal::ByteArray(b) => Ok::<Seq<u8>, SErr>(b),
                p => Err(SErr::UnexpectedType(kind_name(p))),
            },
    {
        self.deserialize_bytes()
    }

    /// Decode an option: the none sentinel is none, anything else is some,
    /// to be decoded from the same object.
    pub fn deserialize_option(&self) -> (r: Option<Depythonizer<'a>>)
        ensures
            match r {
                None => self.input@ is Null,
                Some(d) => !(self.input@ is Null) && d.input == self.input,
            },
    {
        match self.input {
            PyValue::Null => None,
            _ => Some(Depythonizer { input: self.input }),
        }
    }

    /// Decode the unit: the object must be the none sentinel.
    pub fn deserialize_unit(&self) -> (r: Result<(), PythonizeError>)
        ensures
            match r {
                Ok(_) => self.input@ is Null,
                Err(e) => !(self.input@ is Null) && e@ == SErr::Message("expected None"@),
            },
    {
        match self.input {
            PyValue::Null => Ok(()),
            _ => Err(PythonizeError::msg(String::from_str("expected None"))),
        }
    }

    /// Decode a unit struct, exactly as the unit.
    pub fn deserialize_unit_struct(&self, name: &str) -> (r: Result<(), PythonizeError>)
        ensures
            match r {
                Ok(_) => self.input@ is Null,
                Err(e) => !(self.input@ is Null) && e@ == SErr::Message("expected None"@),
            },
    {
        let _ = name;
        self.deserialize_unit()
    }

    /// Decode a newtype struct: transparent, the wrapped value is decoded
    /// from the same object.
    pub fn deserialize_newtype_struct(&self, name: &str) -> (r: Depythonizer<'a>)
        ensures
            r.input == self.input,
    {
        let _ = name;
        Depythonizer { input: self.input }
    }

    /// Discard the object; always succeeds.
    pub fn deserialize_ignored_any(&self) -> (r: Result<(), PythonizeError>)
        ensures
            r is Ok,
    {
        Ok(())
    }

    /// Decode a struct-field or variant identifier: the object must be a
    /// string, else the mapping key is not a string.
    pub fn deserialize_identifier(&self) -> (r: Result<String, PythonizeError>)
        ensures
            dec_view(r) == match self.input@ {
                PyVal::Str(s) => Ok::<Seq<char>, SErr>(s),
                _ => Err(SErr::DictKeyNotString),
            },
    {
        match self.input {
            PyValue::Str(s) => Ok(clone_str(s)),
            _ => Err(PythonizeError::dict_key_not_string()),
        }
    }
}

/// The element list of a sequence-capable object: list, tuple, or an object
/// supporting the generic sequence protocol.
pub open spec fn sequence_items(p: PyVal) -> Option<Seq<PyVal>> {
    match p {
        PyVal::List(items) => Some(items),
        PyVal::Tuple(items) => Some(items),
        PyVal::Sequence(items) => Some(items),
        _ => None,
    }
}

/// The element list of a set or frozenset, in iteration order.
pub open spec fn set_items(p: PyVal) -> Option<Seq<PyVal>> {
    match p {
        PyVal::PySet(items) => Some(items),
        PyVal::FrozenSet(items) => Some(items),
        _ => None,
    }
}

/// What an unconstrained sequence decode walks: a sequence-capable object's
/// elements, else a set's elements as the fallback.
pub open spec fn seq_fallback_items(p: PyVal) -> Option<Seq<PyVal>> {
    if sequence_items(p) is Some {
        sequence_items(p)
    } else {
        set_items(p)
    }
}

/// The entry list of a mapping-capable object: dict, a generic mapping, or a
/// named mapping.
pub open spec fn mapping_entries(p: PyVal) -> Option<Seq<(PyVal, PyVal)>> {
    match p {
        PyVal::Dict(entries) => Some(entries),
        PyVal::Mapping(entries) => Some(entries),
        PyVal::NamedMapping(_name, entries) => Some(entries),
        _ => None,
    }
}

/// What an enum decode finds: for a bare string the variant name alone, for
/// a single-entry mapping with a string key the variant name and its
/// payload; a mapping with any other number of keys, a mapping with a
/// non-string key, and every other kind are the three enum-shape errors.
pub open spec fn spec_enum_access(p: PyVal) -> Result<(Seq<char>, Option<PyVal>), SErr> {
    match p {
        PyVal::Str(s) => Ok((s, None::<PyVal>)),
        _ => match mapping_entries(p) {
            Some(entries) => if entries.len() != 1 {
                Err(SErr::InvalidLengthEnum)
            } else {
                match entries[0].0 {
                    PyVal::Str(k) => Ok((k, Some(entries[0].1))),
                    _ => Err(SErr::DictKeyNotString),
                }
            },
            None => Err(SErr::InvalidEnumType),
        },
    }
}

/// A cursor over the elements of a sequence-capable object.
pub struct PySequenceAccess<'a> {
    pub seq: &'a Vec<PyValue>,
    pub index: usize,
    pub len: usize,
}

impl<'a> PySequenceAccess<'a> {
    pub open spec fn wf(&self) -> bool {
        self.index <= self.len && self.len == self.seq@.len()
    }

    fn new(seq: &'a Vec<PyValue>, len: usize) -> (r: PySequenceAccess<'a>)
        requires
            len == seq@.len(),
        ensures
            r.wf(),
            r.seq == seq,
            r.index == 0,
            r.len == len,
    {
        Self { seq, index: 0, len }
    }

    /// Hand out a fresh decoder for the next element, or nothing when the
    /// cursor is exhausted.
    pub fn next_element(&mut self) -> (r: Option<Depythonizer<'a>>)
        requires
            old(self).wf(),
        ensures
            final(self).wf(),
            final(self).seq == old(self).seq,
            final(self).len == old(self).len,
            if old(self).index < old(self).len {
                &&& r matches Some(d) && *d.input == old(self).seq@[old(self).index as int]
                &&& final(self).index == old(self).index + 1
            } else {
                r is None && final(self).index == old(self).index
            },
    {
        if self.index < self.len {
            let item = &self.seq[self.index];
            self.index = self.index + 1;
            Some(Depythonizer { input: item })
        } else {
            None
        }
    }
}

/// A cursor over a set's elements, driven by the set's own iteration order.
pub struct PySetAsSequence<'a> {
    pub iter: &'a Vec<PyValue>,
    pub index: usize,
}

impl<'a> PySetAsSequence<'a> {
    pub open spec fn wf(&self) -> bool {
        self.index <= self.iter@.len()
    }

    fn from_set(set: &'a Vec<PyValue>) -> (r: PySetAsSequence<'a>)
        ensures
            r.wf(),
            r.iter == set,
            r.index == 0,
    {
        Self { iter: set, index: 0 }
    }

    fn from_frozenset(set: &'a Vec<PyValue>) -> (r: PySetAsSequence<'a>)
        ensures
            r.wf(),
            r.iter == set,
            r.index == 0,
    {
        Self { iter: set, index: 0 }
    }

    /// Hand out a fresh decoder for the next element, or nothing when the
    /// iterator is exhausted.
    pub fn next_element(&mut self) -> (r: Option<Depythonizer<'a>>)
        requires
            old(self).wf(),
        ensures
            final(self).wf(),
            final(self).iter == old(self).iter,
            if old(self).index < old(self).iter@.len() {
                &&& r matches Some(d) && *d.input == old(self).iter@[old(self).index as int]
                &&& final(self).index == old(self).index + 1
            } else {
                r is None && final(self).index == old(self).index
            },
    {
        if self.index < self.iter.len() {
            let item = &self.iter[self.index];
            self.index = self.index + 1;
            Some(Depythonizer { input: item })
        } else {
            None
        }
    }
}

/// The cursor an unconstrained sequence decode walks: over a
/// sequence-capable object, or over a set by the fallback.
pub enum SeqItems<'a> {
    OfSequence(PySequenceAccess<'a>),
    OfSet(PySetAsSequence<'a>),
}

impl<'a> SeqItems<'a> {
    pub open spec fn items(&self) -> Seq<PyValue> {
        match self {
            SeqItems::OfSequence(a) => a.seq@,
            SeqItems::OfSet(s) => s.iter@,
        }
    }

    pub open spec fn pos(&self) -> int {
        match self {
            SeqItems::OfSequence(a) => a.index as int,
            SeqItems::OfSet(s) => s.index as int,
        }
    }

    pub open spec fn wf(&self) -> bool {
        match self {
            SeqItems::OfSequence(a) => a.wf(),
            SeqItems::OfSet(s) => s.wf(),
        }
    }

    /// Hand out a fresh decoder for the next element, or nothing when the
    /// cursor is exhausted.
    pub fn next_element(&mut self) -> (r: Option<Depythonizer<'a>>)
        requires
            old(self).wf(),
        ensures
            final(self).wf(),
            final(self).items() == old(self).items(),
            if old(self).pos() < old(self).items().len() {
                &&& r matches Some(d) && *d.input == old(self).items()[old(self).pos()]
                &&& final(self).pos() == old(self).pos() + 1
            } else {
                r is None && final(self).pos() == old(self).pos()
            },
    {
        match self {
            SeqItems::OfSequence(a) => a.next_element(),
            SeqItems::OfSet(s) => s.next_element(),
        }
    }
}

/// A cursor over a mapping's entries: keys and values are walked
/// independently, the value cursor never ahead of the key cursor.
pub struct PyMappingAccess<'a> {
    pub entries: &'a Vec<(PyValue, PyValue)>,
    pub key_idx: usize,
    pub val_idx: usize,
    pub len: usize,
}

impl<'a> PyMappingAccess<'a> {
    pub open spec fn wf(&self) -> bool {
        self.val_idx <= self.key_idx <= self.len && self.len == self.entries@.len()
    }

    fn new(entries: &'a Vec<(PyValue, PyValue)>) -> (r: PyMappingAccess<'a>)
        ensures
            r.wf(),
            r.entries == entries,
            r.key_idx == 0,
            r.val_idx == 0,
            r.len == entries@.len(),
    {
        let len = entries.len();
        Self { entries, key_idx: 0, val_idx: 0, len }
    }

    /// Hand out a fresh decoder for the next key, or nothing when the keys
    /// are exhausted.
    pub fn next_key(&mut self) -> (r: Option<Depythonizer<'a>>)
        requires
            old(self).wf(),
        ensures
            final(self).wf(),
            final(self).entries == old(self).entries,
            final(self).len == old(self).len,
            final(self).val_idx == old(self).val_idx,
            if old(self).key_idx < old(self).len {
                &&& r matches Some(d) && *d.input == old(self).entries@[old(self).key_idx as int].0
                &&& final(self).key_idx == old(self).key_idx + 1
            } else {
                r is None && final(self).key_idx == old(self).key_idx
            },
    {
        if self.key_idx < self.len {
            let item = &self.entries[self.key_idx].0;
            self.key_idx = self.key_idx + 1;
            Some(Depythonizer { input: item })
        } else {
            None
        }
    }

    /// Hand out a fresh decoder for the value paired with the last key; the
    /// generic framework calls this only after a key was handed out.
    pub fn next_value(&mut self) -> (r: Depythonizer<'a>)
        requires
            old(self).wf(),
            old(self).val_idx < old(self).key_idx,
        ensures
            final(self).wf(),
            final(self).entries == old(self).entries,
            final(self).len == old(self).len,
            final(self).key_idx == old(self).key_idx,
            final(self).val_idx == old(self).val_idx + 1,
            *r.input == old(self).entries@[old(self).val_idx as int].1,
    {
        let item = &self.entries[self.val_idx].1;
        self.val_idx = self.val_idx + 1;
        Depythonizer { input: item }
    }
}

/// Access to a decoded enum: the variant name, and the payload when the
/// input was the tagged single-entry mapping form.
pub struct PyEnumAccess<'a> {
    pub variant: &'a String,
    pub de: Option<Depythonizer<'a>>,
}

impl<'a> PyEnumAccess<'a> {
    /// The variant name, as the generic framework's variant seed decodes it.
    pub fn variant_name(&self) -> (r: String)
        ensures
            r@ == self.variant@,
    {
        clone_str(self.variant)
    }

    /// A unit variant accepts any payload shape and discards it.
    pub fn unit_variant(self) -> (r: Result<(), PythonizeError>)
        ensures
            r is Ok,
    {
        Ok(())
    }

    /// The payload decoder for a newtype variant; a bare-string enum has no
    /// payload to decode.
    pub fn newtype_variant(self) -> (r: Result<Depythonizer<'a>, PythonizeError>)
        ensures
            match self.de {
                Some(d) => r == Ok::<Depythonizer<'a>, PythonizeError>(d),
                None => r matches Err(e) && e@ == SErr::Message(
                    "invalid type: unit variant, expected newtype variant"@,
                ),
            },
    {
        match self.de {
            Some(d) => Ok(d),
            None => Err(PythonizeError::msg(
                String::from_str("invalid type: unit variant, expected newtype variant"),
            )),
        }
    }

    /// The element cursor for a tuple variant's payload, with the arity
    /// enforced.
    pub fn tuple_variant(self, len: usize) -> (r: Result<PySequenceAccess<'a>, PythonizeError>)
        requires
            self.de matches Some(d) ==> pv_wf(*d.input),
        ensures
            match self.de {
                None => r matches Err(e) && e@ == SErr::Message(
                    "invalid type: unit variant, expected tuple variant"@,
                ),
                Some(d) => match r {
                    Ok(a) => {
                        &&& a.wf() && a.index == 0
                        &&& sequence_items(d.input@) == Some(pv_seq(a.seq@))
                        &&& a.len == len && a.seq@.len() == len
                        &&& pv_seq_wf(a.seq@)
                    },
                    Err(e) => match sequence_items(d.input@) {
                        None => e@ == SErr::UnexpectedType(kind_name(d.input@)),
                        Some(s) => s.len() != len && e@ == (SErr::IncorrectSequenceLength {
                            expected: len as int,
                            got: s.len() as int,
                        }),
                    },
                },
            },
    {
        match self.de {
            Some(d) => d.sequence_access_expecting(len),
            None => Err(PythonizeError::msg(
                String::from_str("invalid type: unit variant, expected tuple variant"),
            )),
        }
    }

    /// The entry cursor for a struct variant's payload.
    pub fn struct_variant(self) -> (r: Result<PyMappingAccess<'a>, PythonizeError>)
        requires
            self.de matches Some(d) ==> pv_wf(*d.input),
        ensures
            match self.de {
                None => r matches Err(e) && e@ == SErr::Message(
                    "invalid type: unit variant, expected struct variant"@,
                ),
                Some(d) => match r {
                    Ok(m) => {
                        &&& m.wf() && m.key_idx == 0 && m.val_idx == 0
                        &&& mapping_entries(d.input@) == Some(pv_entries(m.entries@))
                        &&& m.len == m.entries@.len()
                        &&& pv_entries_wf(m.entries@)
                    },
                    Err(e) => mapping_entries(d.input@) is None && e@ == SErr::UnexpectedType(
                        kind_name(d.input@),
                    ),
                },
            },
    {
        match self.de {
            Some(d) => d.dict_access(),
            None => Err(PythonizeError::msg(
                String::from_str("invalid type: unit variant, expected struct variant"),
            )),
        }
    }
}

impl<'a> Depythonizer<'a> {
    /// A cursor over a sequence-capable object, with the arity check when an
    /// expected length is given.
    pub fn sequence_access(&self, expected_len: Option<usize>) -> (r: Result<
        PySequenceAccess<'a>,
        PythonizeError,
    >)
        requires
            pv_wf(*self.input),
        ensures
            match r {
                Ok(a) => {
                    &&& a.wf() && a.index == 0
                    &&& sequence_items(self.input@) == Some(pv_seq(a.seq@))
                    &&& a.len == a.seq@.len()
                    &&& pv_seq_wf(a.seq@)
                    &&& expected_len matches Some(n) ==> a.len == n
                },
                Err(e) => match sequence_items(self.input@) {
                    None => e@ == SErr::UnexpectedType(kind_name(self.input@)),
                    Some(s) => expected_len matches Some(n) && n != s.len() && e@ == (
                    SErr::IncorrectSequenceLength { expected: n as int, got: s.len() as int }
                    ),
                },
            },
    {
        let items: &'a Vec<PyValue> = match self.input {
            PyValue::List(items) => items,
            PyValue::Tuple(items) => items,
            PyValue::Sequence(items) => items,
            _ => {
                return Err(self.unexpected());
            },
        };
        proof {
            lemma_pv_seq(items@);
        }
        let len = items.len();
        match expected_len {
            Some(expected) if expected != len => Err(
                PythonizeError::incorrect_sequence_length(expected, len),
            ),
            _ => Ok(PySequenceAccess::new(items, len)),
        }
    }

    /// As `sequence_access` with a required length.
    pub fn sequence_access_expecting(&self, len: usize) -> (r: Result<
        PySequenceAccess<'a>,
        PythonizeError,
    >)
        requires
            pv_wf(*self.input),
        ensures
            match r {
                Ok(a) => {
                    &&& a.wf() && a.index == 0
                    &&& sequence_items(self.input@) == Some(pv_seq(a.seq@))
                    &&& a.len == len && a.seq@.len() == len
                    &&& pv_seq_wf(a.seq@)
                },
                Err(e) => match sequence_items(self.input@) {
                    None => e@ == SErr::UnexpectedType(kind_name(self.input@)),
                    Some(s) => s.len() != len && e@ == (SErr::IncorrectSequenceLength {
                        expected: len as int,
                        got: s.len() as int,
                    }),
                },
            },
    {
        self.sequence_access(Some(len))
    }

    /// A set cursor for the set-as-sequence fallback.
    pub fn set_access(&self) -> (r: Result<PySetAsSequence<'a>, PythonizeError>)
        requires
            pv_wf(*self.input),
        ensures
            match r {
                Ok(a) => {
                    &&& a.wf() && a.index == 0
                    &&& set_items(self.input@) == Some(pv_seq(a.iter@))
                    &&& pv_seq_wf(a.iter@)
                },
                Err(e) => set_items(self.input@) is None && e@ == SErr::UnexpectedType(
                    kind_name(self.input@),
                ),
            },
    {
        proof {
            if self.input is PySet {
                lemma_pv_seq(self.input->PySet_0@);
            }
            if self.input is FrozenSet {
                lemma_pv_seq(self.input->FrozenSet_0@);
            }
        }
        match self.input {
            PyValue::PySet(items) => Ok(PySetAsSequence::from_set(items)),
            PyValue::FrozenSet(items) => Ok(PySetAsSequence::from_frozenset(items)),
            _ => Err(self.unexpected()),
        }
    }

    /// An entry cursor over a mapping-capable object.
    pub fn dict_access(&self) -> (r: Result<PyMappingAccess<'a>, PythonizeError>)
        requires
            pv_wf(*self.input),
        ensures
            match r {
                Ok(m) => {
                    &&& m.wf() && m.key_idx == 0 && m.val_idx == 0
                    &&& mapping_entries(self.input@) == Some(pv_entries(m.entries@))
                    &&& m.len == m.entries@.len()
                    &&& pv_entries_wf(m.entries@)
                },
                Err(e) => mapping_entries(self.input@) is None && e@ == SErr::UnexpectedType(
                    kind_name(self.input@),
                ),
            },
    {
        match self.input {
            PyValue::Dict(entries) => Ok(PyMappingAccess::new(entries)),
            PyValue::Mapping(entries) => Ok(PyMappingAccess::new(entries)),
            PyValue::NamedMapping(_name, entries) => Ok(PyMappingAccess::new(entries)),
            _ => Err(self.unexpected()),
        }
    }

    /// Decode an unconstrained sequence, with sets accepted as unordered
    /// sequences by the fallback.
    pub fn deserialize_seq(&self) -> (r: Result<SeqItems<'a>, PythonizeError>)
        requires
            pv_wf(*self.input),
        ensures
            match r {
                Ok(c) => {
                    &&& c.wf() && c.pos() == 0
                    &&& seq_fallback_items(self.input@) == Some(pv_seq(c.items()))
                    &&& pv_seq_wf(c.items())
                },
                Err(e) => seq_fallback_items(self.input@) is None && e@ == SErr::UnexpectedType(
                    kind_name(self.input@),
                ),
            },
    {
        match self.sequence_access(None) {
            Ok(a) => Ok(SeqItems::OfSequence(a)),
            Err(e) => match self.set_access() {
                Ok(s) => Ok(SeqItems::OfSet(s)),
                Err(_) => Err(e),
            },
        }
    }

    /// Decode a fixed-arity tuple: the observed length must equal the
    /// expected one.
    pub fn deserialize_tuple(&self, len: usize) -> (r: Result<
        PySequenceAccess<'a>,
        PythonizeError,
    >)
        requires
            pv_wf(*self.input),
        ensures
            match r {
                Ok(a) => {
                    &&& a.wf() && a.index == 0
                    &&& sequence_items(self.input@) == Some(pv_seq(a.seq@))
                    &&& a.len == len && a.seq@.len() == len
                    &&& pv_seq_wf(a.seq@)
                },
                Err(e) => match sequence_items(self.input@) {
                    None => e@ == SErr::UnexpectedType(kind_name(self.input@)),
                    Some(s) => s.len() != len && e@ == (SErr::IncorrectSequenceLength {
                        expected: len as int,
                        got: s.len() as int,
                    }),
                },
            },
    {
        self.sequence_access_expecting(len)
    }

    /// Decode a tuple struct, exactly as a tuple of its arity.
    pub fn deserialize_tuple_struct(&self, name: &str, len: usize) -> (r: Result<
        PySequenceAccess<'a>,
        PythonizeError,
    >)
        requires
            pv_wf(*self.input),
        ensures
            match r {
                Ok(a) => {
                    &&& a.wf() && a.index == 0
                    &&& sequence_items(self.input@) == Some(pv_seq(a.seq@))
                    &&& a.len == len && a.seq@.len() == len
                    &&& pv_seq_wf(a.seq@)
                },
                Err(e) => match sequence_items(self.input@) {
                    None => e@ == SErr::UnexpectedType(kind_name(self.input@)),
                    Some(s) => s.len() != len && e@ == (SErr::IncorrectSequenceLength {
                        expected: len as int,
                        got: s.len() as int,
                    }),
                },
            },
    {
        let _ = name;
        self.sequence_access_expecting(len)
    }

    /// Decode a map: the object must be mapping-capable.
    pub fn deserialize_map(&self) -> (r: Result<PyMappingAccess<'a>, PythonizeError>)
        requires
            pv_wf(*self.input),
        ensures
            match r {
                Ok(m) => {
                    &&& m.wf() && m.key_idx == 0 && m.val_idx == 0
                    &&& mapping_entries(self.input@) == Some(pv_entries(m.entries@))
                    &&& m.len == m.entries@.len()
                    &&& pv_entries_wf(m.entries@)
                },
                Err(e) => mapping_entries(self.input@) is None && e@ == SErr::UnexpectedType(
                    kind_name(self.input@),
                ),
            },
    {
        self.dict_access()
    }

    /// Decode a struct, exactly as a map of its fields.
    pub fn deserialize_struct(&self, name: &str) -> (r: Result<
        PyMappingAccess<'a>,
        PythonizeError,
    >)
        requires
            pv_wf(*self.input),
        ensures
            match r {
                Ok(m) => {
                    &&& m.wf() && m.key_idx == 0 && m.val_idx == 0
                    &&& mapping_entries(self.input@) == Some(pv_entries(m.entries@))
                    &&& m.len == m.entries@.len()
                    &&& pv_entries_wf(m.entries@)
                },
                Err(e) => mapping_entries(self.input@) is None && e@ == SErr::UnexpectedType(
                    kind_name(self.input@),
                ),
            },
    {
        let _ = name;
        self.dict_access()
    }

    /// Decode an enum: a bare string names a unit variant; a single-entry
    /// mapping with a string key is the tagged variant form.
    pub fn deserialize_enum(&self) -> (r: Result<PyEnumAccess<'a>, PythonizeError>)
        requires
            pv_wf(*self.input),
        ensures
            match r {
                Ok(a) => {
                    &&& spec_enum_access(self.input@) matches Ok(pair)
                    &&& spec_enum_access(self.input@)->Ok_0.0 == a.variant@
                    &&& match a.de {
                        None => spec_enum_access(self.input@)->Ok_0.1 is None,
                        Some(d) => spec_enum_access(self.input@)->Ok_0.1 == Some(d.input@)
                            && pv_wf(*d.input),
                    }
                },
                Err(e) => spec_enum_access(self.input@) == Err::<
                    (Seq<char>, Option<PyVal>),
                    SErr,
                >(e@),
            },
    {
        match self.input {
            PyValue::Str(s) => {
                proof {
                    assert(self.input@ == PyVal::Str(s@));
                    assert(spec_enum_access(self.input@) == Ok::<(Seq<char>, Option<PyVal>), SErr>(
                        (s@, None::<PyVal>),
                    ));
                }
                Ok(PyEnumAccess { variant: s, de: None })
            },
            _ => {
                let entries: &'a Vec<(PyValue, PyValue)> = match self.input {
                    PyValue::Dict(entries) => entries,
                    PyValue::Mapping(entries) => entries,
                    PyValue::NamedMapping(_name, entries) => entries,
                    _ => {
                        return Err(PythonizeError::invalid_enum_type());
                    },
                };
                proof {
                    lemma_pv_entries(entries@);
                }
                if entries.len() != 1 {
                    return Err(PythonizeError::invalid_length_enum());
                }
                match &entries[0].0 {
                    PyValue::Str(k) => {
                        proof {
                            assert(pv_entries(entries@)[0] == (pv(entries@[0].0), pv(
                                entries@[0].1,
                            )));
                            assert(pv(entries@[0].0) == PyVal::Str(k@));
                            assert(pv_wf(*self.input));
                            assert(pv_entries_wf(entries@));
                            assert(pv_wf(entries@[0int].0) && pv_wf(entries@[0int].1));
                        }
                        Ok(PyEnumAccess {
                            variant: k,
                            de: Some(Depythonizer { input: &entries[0].1 }),
                        })
                    },
                    _ => Err(PythonizeError::dict_key_not_string()),
                }
            },
        }
    }
}

impl<'a> Depythonizer<'a> {
    /// The integer value of the object as an unsigned number no larger than
    /// `hi`, by the host's coercion rule: integers and booleans coerce,
    /// anything else is a type error, and out of range is an overflow error.
    fn extract_unsigned(&self, hi: u128) -> (r: Result<u128, PythonizeError>)
        requires
            pv_wf(*self.input),
            hi >= 1,
        ensures
            match r {
                Ok(x) => spec_extract_int(self.input@, 0, hi as int) == Ok::<int, SErr>(x as int)
                    && x <= hi,
                Err(e) => spec_extract_int(self.input@, 0, hi as int) == Err::<int, SErr>(e@),
            },
    {
        match self.input {
            PyValue::Int(l) => match l.try_to_u128() {
                Some(x) => if x <= hi {
                    Ok(x)
                } else {
                    Err(overflow_error())
                },
                None => Err(overflow_error()),
            },
            PyValue::Bool(b) => Ok(if *b { 1u128 } else { 0u128 }),
            _ => Err(self.int_type_error()),
        }
    }

    /// The integer value of the object as a signed number in
    /// `lo ..= hi`, by the same coercion rule.
    fn extract_signed(&self, lo: i128, hi: i128) -> (r: Result<i128, PythonizeError>)
        requires
            pv_wf(*self.input),
            lo <= 0,
            hi >= 1,
        ensures
            match r {
                Ok(x) => spec_extract_int(self.input@, lo as int, hi as int) == Ok::<int, SErr>(
                    x as int,
                ) && lo <= x <= hi,
                Err(e) => spec_extract_int(self.input@, lo as int, hi as int) == Err::<int, SErr>(
                    e@,
                ),
            },
    {
        match self.input {
            PyValue::Int(l) => match l.try_to_i128() {
                Some(x) => if lo <= x && x <= hi {
                    Ok(x)
                } else {
                    Err(overflow_error())
                },
                None => Err(overflow_error()),
            },
            PyValue::Bool(b) => Ok(if *b { 1i128 } else { 0i128 }),
            _ => Err(self.int_type_error()),
        }
    }

    /// Decode a `u8` by direct range-checked extraction.
    pub fn deserialize_u8(&self) -> (r: Result<u8, PythonizeError>)
        requires
            pv_wf(*self.input),
        ensures
            match r {
                Ok(x) => spec_extract_int(self.input@, 0, u8::MAX as int) == Ok::<int, SErr>(
                    x as int,
                ),
                Err(e) => spec_extract_int(self.input@, 0, u8::MAX as int) == Err::<int, SErr>(e@),
            },
    {
        match self.extract_unsigned(u8::MAX as u128) {
            Ok(x) => Ok(x as u8),
            Err(e) => Err(e),
        }
    }

    /// Decode a `u16` by direct range-checked extraction.
    pub fn deserialize_u16(&self) -> (r: Result<u16, PythonizeError>)
        requires
            pv_wf(*self.input),
        ensures
            match r {
                Ok(x) => spec_extract_int(self.input@, 0, u16::MAX as int) == Ok::<int, SErr>(
                    x as int,
                ),
                Err(e) => spec_extract_int(self.input@, 0, u16::MAX as int) == Err::<int, SErr>(
                    e@,
                ),
            },
    {
        match self.extract_unsigned(u16::MAX as u128) {
            Ok(x) => Ok(x as u16),
            Err(e) => Err(e),
        }
    }

    /// Decode a `u32` by direct range-checked extraction.
    pub fn deserialize_u32(&self) -> (r: Result<u32, PythonizeError>)
        requires
            pv_wf(*self.input),
        ensures
            match r {
                Ok(x) => spec_extract_int(self.input@, 0, u32::MAX as int) == Ok::<int, SErr>(
                    x as int,
                ),
                Err(e) => spec_extract_int(self.input@, 0, u32::MAX as int) == Err::<int, SErr>(
                    e@,
                ),
            },
    {
        match self.extract_unsigned(u32::MAX as u128) {
            Ok(x) => Ok(x as u32),
            Err(e) => Err(e),
        }
    }

    /// Decode a `u64` by direct range-checked extraction.
    pub fn deserialize_u64(&self) -> (r: Result<u64, PythonizeError>)
        requires
            pv_wf(*self.input),
        ensures
            match r {
                Ok(x) => spec_extract_int(self.input@, 0, u64::MAX as int) == Ok::<int, SErr>(
                    x as int,
                ),
                Err(e) => spec_extract_int(self.input@, 0, u64::MAX as int) == Err::<int, SErr>(
                    e@,
                ),
            },
    {
        match self.extract_unsigned(u64::MAX as u128) {
            Ok(x) => Ok(x as u64),
            Err(e) => Err(e),
        }
    }

    /// Decode a `u128` by direct range-checked extraction.
    pub fn deserialize_u128(&self) -> (r: Result<u128, PythonizeError>)
        requires
            pv_wf(*self.input),
        ensures
            match r {
                Ok(x) => spec_extract_int(self.input@, 0, u128::MAX as int) == Ok::<int, SErr>(
                    x as int,
                ),
                Err(e) => spec_extract_int(self.input@, 0, u128::MAX as int) == Err::<int, SErr>(
                    e@,
                ),
            },
    {
        self.extract_unsigned(u128::MAX)
    }

    /// Decode an `i8` by direct range-checked extraction.
    pub fn deserialize_i8(&self) -> (r: Result<i8, PythonizeError>)
        requires
            pv_wf(*self.input),
        ensures
            match r {
                Ok(x) => spec_extract_int(self.input@, i8::MIN as int, i8::MAX as int) == Ok::<
                    int,
                    SErr,
                >(x as int),
                Err(e) => spec_extract_int(self.input@, i8::MIN as int, i8::MAX as int) == Err::<
                    int,
                    SErr,
                >(e@),
            },
    {
        match self.extract_signed(i8::MIN as i128, i8::MAX as i128) {
            Ok(x) => Ok(x as i8),
            Err(e) => Err(e),
        }
    }

    /// Decode an `i16` by direct range-checked extraction.
    pub fn deserialize_i16(&self) -> (r: Result<i16, PythonizeError>)
        requires
            pv_wf(*self.input),
        ensures
            match r {
                Ok(x) => spec_extract_int(self.input@, i16::MIN as int, i16::MAX as int) == Ok::<
                    int,
                    SErr,
                >(x as int),
                Err(e) => spec_extract_int(self.input@, i16::MIN as int, i16::MAX as int) == Err::<
                    int,
                    SErr,
                >(e@),
            },
    {
        match self.extract_signed(i16::MIN as i128, i16::MAX as i128) {
            Ok(x) => Ok(x as i16),
            Err(e) => Err(e),
        }
    }

    /// Decode an `i32` by direct range-checked extraction.
    pub fn deserialize_i32(&self) -> (r: Result<i32, PythonizeError>)
        requires
            pv_wf(*self.input),
        ensures
            match r {
                Ok(x) => spec_extract_int(self.input@, i32::MIN as int, i32::MAX as int) == Ok::<
                    int,
                    SErr,
                >(x as int),
                Err(e) => spec_extract_int(self.input@, i32::MIN as int, i32::MAX as int) == Err::<
                    int,
                    SErr,
                >(e@),
            },
    {
        match self.extract_signed(i32::MIN as i128, i32::MAX as i128) {
            Ok(x) => Ok(x as i32),
            Err(e) => Err(e),
        }
    }

    /// Decode an `i64` by direct range-checked extraction.
    pub fn deserialize_i64(&self) -> (r: Result<i64, PythonizeError>)
        requires
            pv_wf(*self.input),
        ensures
            match r {
                Ok(x) => spec_extract_int(self.input@, i64::MIN as int, i64::MAX as int) == Ok::<
                    int,
                    SErr,
                >(x as int),
                Err(e) => spec_extract_int(self.input@, i64::MIN as int, i64::MAX as int) == Err::<
                    int,
                    SErr,
                >(e@),
            },
    {
        match self.extract_signed(i64::MIN as i128, i64::MAX as i128) {
            Ok(x) => Ok(x as i64),
            Err(e) => Err(e),
        }
    }

    /// Decode an `i128` by direct range-checked extraction.
    pub fn deserialize_i128(&self) -> (r: Result<i128, PythonizeError>)
        requires
            pv_wf(*self.input),
        ensures
            match r {
                Ok(x) => spec_extract_int(self.input@, i128::MIN as int, i128::MAX as int) == Ok::<
                    int,
                    SErr,
                >(x as int),
                Err(e) => spec_extract_int(self.input@, i128::MIN as int, i128::MAX as int)
                    == Err::<int, SErr>(e@),
            },
    {
        self.extract_signed(i128::MIN, i128::MAX)
    }

    /// Decode a double-width float, handed on as its IEEE-754 bits; the
    /// object must be float-typed, the host-side widening of other numeric
    /// kinds being outside this model.
    pub fn deserialize_f64(&self) -> (r: Result<u64, PythonizeError>)
        ensures
            match r {
                Ok(bits) => self.input@ == PyVal::Float(bits),
                Err(e) => !(self.input@ is Float) && e@ == SErr::HostErr(float_type_err(
                    self.input@,
                )),
            },
    {
        match self.input {
            PyValue::Float(bits) => Ok(*bits),
            _ => Err(self.float_type_error()),
        }
    }

    /// Decode a single-width float; the value is carried as the IEEE-754
    /// double bits it widens to.
    pub fn deserialize_f32(&self) -> (r: Result<u64, PythonizeError>)
        ensures
            match r {
                Ok(bits) => self.input@ == PyVal::Float(bits),
                Err(e) => !(self.input@ is Float) && e@ == SErr::HostErr(float_type_err(
                    self.input@,
                )),
            },
    {
        self.deserialize_f64()
    }

    fn float_type_error(&self) -> (r: PythonizeError)
        ensures
            r@ == SErr::HostErr(float_type_err(self.input@)),
    {
        let mut m = String::from_str("must be real number, not ");
        let k = self.kind_name_of();
        m.append(k.as_str());
        PythonizeError::host(PyErr::new(PyErrKind::TypeError, m))
    }

    /// Width-aware decode of an untyped integer: the narrowest fitting
    /// width, unsigned first for non-negative values.
    pub fn deserialize_any_int(&self, int_val: &PyLong) -> (r: RustValue)
        requires
            int_val.wf(),
        ensures
            rv(r) == any_int(int_val.value()),
            rv_wf(r),
    {
        any_int_value(int_val)
    }

    /// Decode driven by the object's runtime kind alone.
    pub fn deserialize_any(&self) -> (r: Result<RustValue, PythonizeError>)
        requires
            pv_wf(*self.input),
        ensures
            dec_view(r) == spec_any(self.input@),
            r matches Ok(v) ==> rv_wf(v),
    {
        decode_any_value(self.input)
    }
}

/// The host exception for extracting a float from a non-float object.
pub open spec fn float_type_err(p: PyVal) -> PyErrV {
    PyErrV {
        kind: PyErrKind::TypeError,
        message: "must be real number, not "@ + kind_name(p),
    }
}

fn overflow_error() -> (r: PythonizeError)
    ensures
        r@ == SErr::HostErr(overflow_err()),
{
    PythonizeError::host(PyErr::new(
        PyErrKind::OverflowError,
        String::from_str("out of range integral type conversion attempted"),
    ))
}

/// The narrowest fixed width holding a canonical integer, unsigned first.
fn any_int_value(l: &PyLong) -> (r: RustValue)
    requires
        l.wf(),
    ensures
        rv(r) == any_int(l.value()),
        rv_wf(r),
{
    match l.try_to_u128() {
        Some(x) => {
            if x <= u8::MAX as u128 {
                RustValue::U8(x as u8)
            } else if x <= u16::MAX as u128 {
                RustValue::U16(x as u16)
            } else if x <= u32::MAX as u128 {
                RustValue::U32(x as u32)
            } else if x <= u64::MAX as u128 {
                RustValue::U64(x as u64)
            } else {
                RustValue::U128(x)
            }
        },
        None => match l.try_to_i128() {
            Some(x) => {
                if x >= i8::MIN as i128 {
                    RustValue::I8(x as i8)
                } else if x >= i16::MIN as i128 {
                    RustValue::I16(x as i16)
                } else if x >= i32::MIN as i128 {
                    RustValue::I32(x as i32)
                } else if x >= i64::MIN as i128 {
                    RustValue::I64(x as i64)
                } else {
                    RustValue::I128(x)
                }
            },
            None => RustValue::BigInt(clone_long(l)),
        },
    }
}

/// Clone a canonical integer, keeping its value.
fn clone_long(l: &PyLong) -> (r: PyLong)
    ensures
        r.neg == l.neg,
        r.mag@ == l.mag@,
        r.wf() == l.wf(),
        r.value() == l.value(),
{
    PyLong { neg: l.neg, mag: clone_bytes(&l.mag) }
}

/// Attempt to convert a dynamic object to an untyped static value.
pub fn depythonize(obj: &PyValue) -> (r: Result<RustValue, PythonizeError>)
    requires
        pv_wf(*obj),
    ensures
        dec_view(r) == spec_any(obj@),
        r matches Ok(v) ==> rv_wf(v),
{
    Depythonizer::from_object(obj).deserialize_any()
}

/// Attempt to convert an owned dynamic object to an untyped static value.
pub fn depythonize_bound(obj: PyValue) -> (r: Result<RustValue, PythonizeError>)
    requires
        pv_wf(obj),
    ensures
        dec_view(r) == spec_any(obj@),
        r matches Ok(v) ==> rv_wf(v),
{
    Depythonizer::from_object(&obj).deserialize_any()
}

/// Untyped decode of one dynamic object, recursively.
fn decode_any_value(v: &PyValue) -> (r: Result<RustValue, PythonizeError>)
    requires
        pv_wf(*v),
    ensures
        dec_view(r) == spec_any(pv(*v)),
        r matches Ok(out) ==> rv_wf(out),
    decreases *v, 0int, 0int,
{
    match v {
        PyValue::Null => Ok(RustValue::Unit),
        PyValue::Bool(b) => Ok(RustValue::Bool(*b)),
        PyValue::Int(l) => Ok(any_int_value(l)),
        PyValue::Float(bits) => Ok(RustValue::F64(*bits)),
        PyValue::Str(s) => Ok(RustValue::Str(clone_str(s))),
        PyValue::Bytes(b) => Ok(RustValue::Bytes(clone_bytes(b))),
        PyValue::ByteArray(b) => Ok(RustValue::Bytes(clone_bytes(b))),
        PyValue::List(items) => decode_any_sequence(items),
        PyValue::Tuple(items) => decode_any_sequence(items),
        PyValue::PySet(items) => decode_any_sequence(items),
        PyValue::FrozenSet(items) => decode_any_sequence(items),
        PyValue::Sequence(items) => decode_any_sequence(items),
        PyValue::Dict(entries) => decode_any_mapping(entries),
        PyValue::Mapping(entries) => decode_any_mapping(entries),
        PyValue::NamedMapping(_name, entries) => decode_any_mapping(entries),
        PyValue::Other(name) => Err(PythonizeError::unsupported_type(clone_str(name))),
    }
}

/// Untyped decode of a whole element list into a static-side sequence.
fn decode_any_sequence(items: &Vec<PyValue>) -> (r: Result<RustValue, PythonizeError>)
    requires
        pv_seq_wf(items@),
    ensures
        match r {
            Ok(out) => spec_any_items(pv_seq(items@)) == Ok::<Seq<RVal>, SErr>(
                rv(out)->Sequence_0,
            ) && rv(out) is Sequence && rv_wf(out),
            Err(e) => spec_any_items(pv_seq(items@)) == Err::<Seq<RVal>, SErr>(e@),
        },
    decreases *items, 1int, 0int,
{
    proof {
        lemma_pv_seq(items@);
        assert(pv_seq(items@).take(items@.len() as int) =~= pv_seq(items@));
    }
    match decode_any_prefix(items, items.len()) {
        Ok(out) => Ok(RustValue::Sequence(out)),
        Err(e) => Err(e),
    }
}

/// Untyped decode of a whole entry list into a static-side mapping.
fn decode_any_mapping(entries: &Vec<(PyValue, PyValue)>) -> (r: Result<
    RustValue,
    PythonizeError,
>)
    requires
        pv_entries_wf(entries@),
    ensures
        match r {
            Ok(out) => spec_any_entries(pv_entries(entries@)) == Ok::<Seq<(RVal, RVal)>, SErr>(
                rv(out)->Mapping_0,
            ) && rv(out) is Mapping && rv_wf(out),
            Err(e) => spec_any_entries(pv_entries(entries@)) == Err::<Seq<(RVal, RVal)>, SErr>(
                e@,
            ),
        },
    decreases *entries, 1int, 0int,
{
    proof {
        lemma_pv_entries(entries@);
        assert(pv_entries(entries@).take(entries@.len() as int) =~= pv_entries(entries@));
    }
    match decode_any_entries_prefix(entries, entries.len()) {
        Ok(out) => Ok(RustValue::Mapping(out)),
        Err(e) => Err(e),
    }
}

/// Untyped decode of the first `end` elements of a sequence, in order.
fn decode_any_prefix(items: &Vec<PyValue>, end: usize) -> (r: Result<
    Vec<RustValue>,
    PythonizeError,
>)
    requires
        pv_seq_wf(items@),
        end <= items@.len(),
    ensures
        match r {
            Ok(out) => {
                &&& spec_any_items(pv_seq(items@).take(end as int)) == Ok::<Seq<RVal>, SErr>(
                    rv_seq(out@),
                )
                &&& rv_seq_wf(out@)
                &&& out@.len() == end
            },
            Err(e) => spec_any_items(pv_seq(items@).take(end as int)) == Err::<Seq<RVal>, SErr>(
                e@,
            ),
        },
    decreases *items, 0int, end,
{
    proof {
        lemma_pv_seq(items@);
    }
    if end == 0 {
        proof {
            assert(pv_seq(items@).take(0) =~= Seq::<PyVal>::empty());
            assert(rv_seq(Seq::<RustValue>::empty()) =~= Seq::<RVal>::empty());
        }
        Ok(Vec::new())
    } else {
        match decode_any_prefix(items, end - 1) {
            Err(e) => {
                proof {
                    assert(pv_seq(items@).take(end as int).drop_last() =~= pv_seq(items@).take(
                        end - 1,
                    ));
                }
                Err(e)
            },
            Ok(mut out) => {
                proof {
                    assert(pv_seq(items@).take(end as int).drop_last() =~= pv_seq(items@).take(
                        end - 1,
                    ));
                    assert(pv_seq(items@).take(end as int).last() == pv(items@[end - 1]));
                }
                match decode_any_value(&items[end - 1]) {
                    Err(e) => Err(e),
                    Ok(val) => {
                        let ghost prev = out@;
                        out.push(val);
                        proof {
                            assert(out@.drop_last() =~= prev);
                            assert(out@.last() == val);
                            assert(rv_seq(out@) == rv_seq(prev).push(rv(val)));
                            assert forall|j: int| 0 <= j < out@.len() implies rv_wf(
                                #[trigger] out@[j],
                            ) by {
                                if j < prev.len() {
                                    assert(out@[j] == prev[j]);
                                    assert(rv_wf(prev[j]));
                                } else {
                                    assert(out@[j] == val);
                                }
                            }
                        }
                        Ok(out)
                    },
                }
            },
        }
    }
}

/// Untyped decode of the first `end` entries of a mapping, keys before
/// values within each entry.
fn decode_any_entries_prefix(entries: &Vec<(PyValue, PyValue)>, end: usize) -> (r: Result<
    Vec<(RustValue, RustValue)>,
    PythonizeError,
>)
    requires
        pv_entries_wf(entries@),
        end <= entries@.len(),
    ensures
        match r {
            Ok(out) => {
                &&& spec_any_entries(pv_entries(entries@).take(end as int)) == Ok::<
                    Seq<(RVal, RVal)>,
                    SErr,
                >(rv_entries(out@))
                &&& rv_entries_wf(out@)
                &&& out@.len() == end
            },
            Err(e) => spec_any_entries(pv_entries(entries@).take(end as int)) == Err::<
                Seq<(RVal, RVal)>,
                SErr,
            >(e@),
        },
    decreases *entries, 0int, end,
{
    proof {
        lemma_pv_entries(entries@);
    }
    if end == 0 {
        proof {
            assert(pv_entries(entries@).take(0) =~= Seq::<(PyVal, PyVal)>::empty());
            assert(rv_entries(Seq::<(RustValue, RustValue)>::empty()) =~= Seq::<
                (RVal, RVal),
            >::empty());
        }
        Ok(Vec::new())
    } else {
        match decode_any_entries_prefix(entries, end - 1) {
            Err(e) => {
                proof {
                    assert(pv_entries(entries@).take(end as int).drop_last() =~= pv_entries(
                        entries@,
                    ).take(end - 1));
                }
                Err(e)
            },
            Ok(mut out) => {
                proof {
                    assert(pv_entries(entries@).take(end as int).drop_last() =~= pv_entries(
                        entries@,
                    ).take(end - 1));
                    assert(pv_entries(entries@).take(end as int).last() == (pv(
                        entries@[end - 1].0,
                    ), pv(entries@[end - 1].1)));
                }
                let k = match decode_any_value(&entries[end - 1].0) {
                    Err(e) => {
                        return Err(e);
                    },
                    Ok(k) => k,
                };
                let val = match decode_any_value(&entries[end - 1].1) {
                    Err(e) => {
                        return Err(e);
                    },
                    Ok(val) => val,
                };
                let ghost prev = out@;
                out.push((k, val));
                proof {
                    assert(out@.drop_last() =~= prev);
                    assert(out@.last() == (k, val));
                    assert(rv_entries(out@) == rv_entries(prev).push((rv(k), rv(val))));
                    assert forall|j: int| 0 <= j < out@.len() implies rv_wf(
                        (#[trigger] out@[j]).0,
                    ) && rv_wf(out@[j].1) by {
                        if j < prev.len() {
                            assert(out@[j] == prev[j]);
                            assert(rv_wf(prev[j].0) && rv_wf(prev[j].1));
                        } else {
                            assert(out@[j] == (k, val));
                        }
                    }
                }
                Ok(out)
            },
        }
    }
}

/// Clone a string, keeping its view.
fn clone_str(s: &String) -> (r: String)
    ensures
        r@ == s@,
{
    s.clone()
}

/// Whether a string has any characters.
fn str_len_positive(s: &String) -> (r: bool)
    ensures
        r == (s@.len() > 0),
{
    s.as_str().unicode_len() > 0
}

/// Clone a byte string, keeping its view.
fn clone_bytes(b: &Vec<u8>) -> (r: Vec<u8>)
    ensures
        r@ == b@,
{
    let mut out: Vec<u8> = Vec::new();
    let mut i: usize = 0;
    while i < b.len()
        invariant
            i <= b@.len(),
            out@ == b@.take(i as int),
        decreases b@.len() - i,
    {
        out.push(b[i]);
        proof {
            assert(out@ =~= b@.take(i + 1));
        }
        i = i + 1;
    }
    proof {
        assert(b@.take(b@.len() as int) =~= b@);
    }
    out
}

} // verus!
