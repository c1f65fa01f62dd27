//! The object-graph round-trip adapter: a visitor whose value is a dynamic
//! object, usable to pass a dynamic object through an arbitrary
//! serialization pipeline unchanged.  [`transcode`] composes the two
//! engines; on every canonical object it is the identity.
use vstd::prelude::*;
use vstd::string::*;

use crate::de::{any_int, depythonize, spec_any, spec_any_entries, spec_any_items};
use crate::error::{PythonizeError, SErr};
use crate::long::PyLong;
use crate::ser::{default_types, pythonize, spec_ser, spec_ser_entries, spec_ser_seq};
use crate::value::{
    lemma_pv_entries, pv_entries, pv_entries_wf, pv_seq, pv_seq_wf, pv_wf, PyVal, PyValue, RVal,
};

verus! {

/// A visitor that builds a dynamic object from whatever the driving
/// framework visits: the value side of the round-trip adapter.
pub struct PyObjectVisitor;

impl PyObjectVisitor {
    pub fn new() -> (r: PyObjectVisitor) {
        PyObjectVisitor
    }

    pub fn visit_bool(&self, value: bool) -> (r: PyValue)
        ensures
            r@ == PyVal::Bool(value),
            pv_wf(r),
    {
        PyValue::Bool(value)
    }

    pub fn visit_i64(&self, value: i64) -> (r: PyValue)
        ensures
            r@ == PyVal::Int(value as int),
            pv_wf(r),
    {
        PyValue::Int(PyLong::from_i128(value as i128))
    }

    pub fn visit_i128(&self, value: i128) -> (r: PyValue)
        ensures
            r@ == PyVal::Int(value as int),
            pv_wf(r),
    {
        PyValue::Int(PyLong::from_i128(value))
    }

    pub fn visit_u64(&self, value: u64) -> (r: PyValue)
        ensures
            r@ == PyVal::Int(value as int),
            pv_wf(r),
    {
        PyValue::Int(PyLong::from_u128(value as u128))
    }

    pub fn visit_u128(&self, value: u128) -> (r: PyValue)
        ensures
            r@ == PyVal::Int(value as int),
            pv_wf(r),
    {
        PyValue::Int(PyLong::from_u128(value))
    }

    /// The visited float's IEEE-754 bits become a dynamic float.
    pub fn visit_f64(&self, bits: u64) -> (r: PyValue)
        ensures
            r@ == PyVal::Float(bits),
            pv_wf(r),
    {
        PyValue::Float(bits)
    }

    pub fn visit_str(&self, value: &str) -> (r: PyValue)
        ensures
            r@ == PyVal::Str(value@),
            pv_wf(r),
    {
        PyValue::Str(value.to_owned())
    }

    pub fn visit_string(&self, value: String) -> (r: PyValue)
        ensures
            r@ == PyVal::Str(value@),
            pv_wf(r),
    {
        PyValue::Str(value)
    }

    pub fn visit_bytes(&self, value: Vec<u8>) -> (r: PyValue)
        ensures
            r@ == PyVal::Bytes(value@),
            pv_wf(r),
    {
        PyValue::Bytes(value)
    }

    pub fn visit_none(&self) -> (r: PyValue)
        ensures
            r@ == PyVal::Null,
            pv_wf(r),
    {
        PyValue::Null
    }

    pub fn visit_unit(&self) -> (r: PyValue)
        ensures
            r@ == PyVal::Null,
            pv_wf(r),
    {
        PyValue::Null
    }

    /// Collected sequence elements become a dynamic list.
    pub fn visit_seq(&self, items: Vec<PyValue>) -> (r: PyValue)
        ensures
            r@ == PyVal::List(pv_seq(items@)),
            pv_wf(r) == pv_seq_wf(items@),
    {
        PyValue::List(items)
    }

    /// Collected entries become a dynamic dict.
    pub fn visit_map(&self, entries: Vec<(PyValue, PyValue)>) -> (r: PyValue)
        ensures
            r@ == PyVal::Dict(pv_entries(entries@)),
            pv_wf(r) == pv_entries_wf(entries@),
    {
        PyValue::Dict(entries)
    }

    /// A visited enum becomes the tagged single-entry mapping.
    pub fn visit_enum(&self, variant: &str, value: PyValue) -> (r: PyValue)
        requires
            pv_wf(value),
        ensures
            r@ == PyVal::Dict(seq![(PyVal::Str(variant@), value@)]),
            pv_wf(r),
    {
        let mut entries: Vec<(PyValue, PyValue)> = Vec::new();
        entries.push((PyValue::Str(variant.to_owned()), value));
        proof {
            lemma_pv_entries(entries@);
            assert(pv_entries(entries@) =~= seq![(PyVal::Str(variant@), entries@[0].1@)]);
            assert forall|i: int| 0 <= i < entries@.len() implies pv_wf(
                (#[trigger] entries@[i]).0,
            ) && pv_wf(entries@[i].1) by {
                assert(entries@[i] == entries@[0]);
            }
        }
        PyValue::Dict(entries)
    }
}

/// The canonical dynamic objects: exactly those that an untyped decode
/// followed by a default-strategy encode reproduces unchanged.  Tuples and
/// sets come back as lists, bytearrays as bytes, protocol objects as their
/// native kinds, and an unsupported object does not decode at all; every
/// other kind is canonical when its children are.
pub open spec fn canonical(p: PyVal) -> bool
    decreases p,
{
    match p {
        PyVal::Null => true,
        PyVal::Bool(_) => true,
        PyVal::Int(_) => true,
        PyVal::Float(_) => true,
        PyVal::Str(_) => true,
        PyVal::Bytes(_) => true,
        PyVal::List(items) => canonical_items(items),
        PyVal::Dict(entries) => canonical_entries(entries),
        _ => false,
    }
}

pub open spec fn canonical_items(s: Seq<PyVal>) -> bool
    decreases s,
{
    forall|i: int| 0 <= i < s.len() ==> canonical(#[trigger] s[i])
}

pub open spec fn canonical_entries(s: Seq<(PyVal, PyVal)>) -> bool
    decreases s,
{
    forall|i: int| 0 <= i < s.len() ==> canonical((#[trigger] s[i]).0) && canonical(s[i].1)
}

/// Pass a dynamic object through the decode-encode pipeline: decode it as
/// an untyped static value, then encode that value under the default
/// strategy.  On a canonical object this returns the same object.
pub fn transcode(obj: &PyValue) -> (r: Result<PyValue, PythonizeError>)
    requires
        pv_wf(*obj),
    ensures
        match r {
            Ok(p) => spec_any(obj@) matches Ok(v) && p@ == spec_ser(v, default_types()) && pv_wf(
                p,
            ),
            Err(e) => spec_any(obj@) == Err::<RVal, SErr>(e@),
        },
        canonical(obj@) ==> (r matches Ok(p) && p@ == obj@),
{
    let decoded = match depythonize(obj) {
        Ok(decoded) => decoded,
        Err(e) => {
            proof {
                if canonical(obj@) {
                    lemma_transcode_identity(obj@);
                }
            }
            return Err(e);
        },
    };
    let r = pythonize(&decoded);
    proof {
        if canonical(obj@) {
            lemma_transcode_identity(obj@);
        }
    }
    r
}

/// Width selection never loses the value: whatever width an untyped integer
/// narrows to, the value carried is the integer itself, and re-encoding it
/// yields the same integer.
pub proof fn lemma_any_int_value(v: int)
    ensures
        spec_ser(any_int(v), default_types()) == PyVal::Int(v),
{
}

/// The round-trip law of the transcoding pipeline: an untyped decode
/// followed by a default-strategy encode reproduces every canonical object.
pub proof fn lemma_transcode_identity(p: PyVal)
    requires
        canonical(p),
    ensures
        spec_any(p) matches Ok(v),
        spec_ser(spec_any(p)->Ok_0, default_types()) == p,
    decreases p,
{
    match p {
        PyVal::Int(v) => {
            lemma_any_int_value(v);
        },
        PyVal::List(items) => {
            lemma_transcode_items(items);
        },
        PyVal::Dict(entries) => {
            lemma_transcode_entries(entries);
        },
        _ => {},
    }
}

proof fn lemma_transcode_items(items: Seq<PyVal>)
    requires
        canonical_items(items),
    ensures
        spec_any_items(items) matches Ok(out),
        spec_ser_seq(spec_any_items(items)->Ok_0, default_types()) =~= items,
    decreases items,
{
    if items.len() > 0 {
        assert(canonical_items(items.drop_last())) by {
            assert(forall|i: int|
                0 <= i < items.drop_last().len() ==> items.drop_last()[i] == #[trigger] items[i]);
        }
        lemma_transcode_items(items.drop_last());
        assert(canonical(items.last()));
        lemma_transcode_identity(items.last());
        let rest = spec_any_items(items.drop_last())->Ok_0;
        let v = spec_any(items.last())->Ok_0;
        assert(spec_any_items(items) == Ok::<Seq<RVal>, SErr>(rest.push(v)));
        assert(rest.push(v).drop_last() =~= rest);
        assert(spec_ser_seq(rest.push(v), default_types()) == spec_ser_seq(
            rest,
            default_types(),
        ).push(spec_ser(v, default_types())));
    }
}

proof fn lemma_transcode_entries(entries: Seq<(PyVal, PyVal)>)
    requires
        canonical_entries(entries),
    ensures
        spec_any_entries(entries) matches Ok(out),
        spec_ser_entries(spec_any_entries(entries)->Ok_0, default_types()) =~= entries,
    decreases entries,
{
    if entries.len() > 0 {
        assert(canonical_entries(entries.drop_last())) by {
            assert(forall|i: int|
                0 <= i < entries.drop_last().len() ==> entries.drop_last()[i] == #[trigger] entries[i]);
        }
        lemma_transcode_entries(entries.drop_last());
        assert(canonical(entries.last().0) && canonical(entries.last().1));
        lemma_transcode_identity(entries.last().0);
        lemma_transcode_identity(entries.last().1);
        let rest = spec_any_entries(entries.drop_last())->Ok_0;
        let k = spec_any(entries.last().0)->Ok_0;
        let v = spec_any(entries.last().1)->Ok_0;
        assert(spec_any_entries(entries) == Ok::<Seq<(RVal, RVal)>, SErr>(rest.push((k, v))));
        assert(rest.push((k, v)).drop_last() =~= rest);
        assert(spec_ser_entries(rest.push((k, v)), default_types()) == spec_ser_entries(
            rest,
            default_types(),
        ).push((spec_ser(k, default_types()), spec_ser(v, default_types()))));
    }
}

} // verus!
