//! The round-trip law of typed decoding: encoding a static value under the
//! default container strategy and decoding the result under the value's own
//! shape gives the value back.
//!
//! The law holds for every value whose shape a typed decode can see through:
//! a present option whose payload does not itself encode to the none
//! sentinel (the sentinel decodes as the absent option), and structs and
//! struct variants with pairwise distinct field names (a repeated name would
//! be reported as a duplicate field).  Those side conditions are
//! [`round_trippable`]; [`shape_matches`] says that a shape is the natural
//! shape of a value.
use vstd::prelude::*;

use crate::de::{mapping_entries, sequence_items, spec_enum_access};
use crate::error::SErr;
use crate::shape::{
    field_index, spec_decode, spec_decode_elems, spec_decode_pairs, spec_decode_struct,
    spec_decode_tuple, spec_decode_variant, spec_decode_zip, spec_struct_collect,
    spec_struct_walk, variant_index, TypeShape, VariantShape,
};
use crate::ser::{
    default_types, named_map_of, spec_ser, spec_ser_entries, spec_ser_fields, spec_ser_seq,
    lemma_spec_ser_entries, lemma_spec_ser_fields, lemma_spec_ser_seq, PythonizeTypes,
};
use crate::value::{PyVal, RVal};

verus! {

/// Whether `shape` is the natural target shape of the value `r`.
pub open spec fn shape_matches(shape: TypeShape, r: RVal) -> bool
    decreases shape, 1int, 0int,
{
    match shape {
        TypeShape::Bool => r is Bool,
        TypeShape::I8 => r is I8,
        TypeShape::I16 => r is I16,
        TypeShape::I32 => r is I32,
        TypeShape::I64 => r is I64,
        TypeShape::I128 => r is I128,
        TypeShape::U8 => r is U8,
        TypeShape::U16 => r is U16,
        TypeShape::U32 => r is U32,
        TypeShape::U64 => r is U64,
        TypeShape::U128 => r is U128,
        TypeShape::F32 => r is F32,
        TypeShape::F64 => r is F64,
        TypeShape::Char => r is Char,
        TypeShape::Str => r is Str,
        TypeShape::Bytes => r is Bytes,
        TypeShape::Option(inner) => match r {
            RVal::OptionNone => true,
            RVal::OptionSome(x) => shape_matches(*inner, *x),
            _ => false,
        },
        TypeShape::Unit => r is Unit,
        TypeShape::UnitStruct(name) => r matches RVal::UnitStruct(n) && n == name@,
        TypeShape::NewtypeStruct(name, inner) => r matches RVal::NewtypeStruct(n, x) && n
            == name@ && shape_matches(*inner, *x),
        TypeShape::Sequence(elem) => r matches RVal::Sequence(items) && forall|i: int|
            0 <= i < items.len() ==> shape_matches(*elem, #[trigger] items[i]),
        TypeShape::Tuple(shapes) => r matches RVal::Tuple(items) && items.len() == shapes@.len()
            && forall|i: int|
            0 <= i < items.len() ==> shape_matches(shapes@[i], #[trigger] items[i]),
        TypeShape::TupleStruct(name, shapes) => r matches RVal::TupleStruct(n, items) && n
            == name@ && items.len() == shapes@.len() && forall|i: int|
            0 <= i < items.len() ==> shape_matches(shapes@[i], #[trigger] items[i]),
        TypeShape::Mapping(kshape, vshape) => r matches RVal::Mapping(entries) && forall|i: int|
            0 <= i < entries.len() ==> shape_matches(*kshape, (#[trigger] entries[i]).0)
                && shape_matches(*vshape, entries[i].1),
        TypeShape::Struct(name, fields) => r matches RVal::Struct(n, values) && n == name@
            && distinct_names(fields@) && fields_match(fields@, values),
        TypeShape::Enum(name, variants) => match r {
            RVal::UnitVariant(n, var) => n == name@ && (variant_index(variants@, var) matches
                Some(i) && 0 <= i < variants@.len() && variants@[i].1 is Unit),
            RVal::NewtypeVariant(n, var, x) => n == name@ && (variant_index(variants@, var)
                matches Some(i) && 0 <= i < variants@.len() && (variants@[i].1 matches
                VariantShape::Newtype(inner) && shape_matches(*inner, *x))),
            RVal::TupleVariant(n, var, items) => n == name@ && (variant_index(variants@, var)
                matches Some(i) && 0 <= i < variants@.len() && (variants@[i].1 matches
                VariantShape::Tuple(shapes) && items.len() == shapes@.len() && forall|j: int|
                0 <= j < items.len() ==> shape_matches(shapes@[j], #[trigger] items[j]))),
            RVal::StructVariant(n, var, values) => n == name@ && (variant_index(variants@, var)
                matches Some(i) && 0 <= i < variants@.len() && (variants@[i].1 matches
                VariantShape::Struct(fields) && distinct_names(fields@) && fields_match(
                fields@,
                values,
            ))),
            _ => false,
        },
        TypeShape::Ignored => false,
        TypeShape::Any => false,
    }
}

/// Declared fields and a value's fields align: same names in the same
/// order, each field shape matching its value.
pub open spec fn fields_match(
    fields: Seq<(String, TypeShape)>,
    values: Seq<(Seq<char>, RVal)>,
) -> bool
    decreases fields, 0int, 0int,
{
    &&& values.len() == fields.len()
    &&& forall|i: int|
        0 <= i < fields.len() ==> (#[trigger] fields[i]).0@ == values[i].0 && shape_matches(
            fields[i].1,
            values[i].1,
        )
}

/// The declared field names are pairwise distinct.
pub open spec fn distinct_names(fields: Seq<(String, TypeShape)>) -> bool {
    forall|i: int, j: int|
        0 <= i < j < fields.len() ==> (#[trigger] fields[i]).0@ != (#[trigger] fields[j]).0@
}

/// The side conditions of the round trip, over the value alone.
pub open spec fn round_trippable(r: RVal) -> bool
    decreases r, 0int, 0int,
{
    match r {
        RVal::OptionSome(x) => !(spec_ser(*x, default_types()) is Null) && round_trippable(*x),
        RVal::NewtypeStruct(_n, x) => round_trippable(*x),
        RVal::Sequence(items) => rt_items(items),
        RVal::Tuple(items) => rt_items(items),
        RVal::TupleStruct(_n, items) => rt_items(items),
        RVal::Mapping(entries) => rt_entries(entries),
        RVal::Struct(_n, values) => rt_values(values),
        RVal::NewtypeVariant(_n, _v, x) => round_trippable(*x),
        RVal::TupleVariant(_n, _v, items) => rt_items(items),
        RVal::StructVariant(_n, _v, values) => rt_values(values),
        _ => true,
    }
}

pub open spec fn rt_items(items: Seq<RVal>) -> bool
    decreases items, 1int, 0int,
{
    forall|i: int| 0 <= i < items.len() ==> round_trippable(#[trigger] items[i])
}

pub open spec fn rt_entries(entries: Seq<(RVal, RVal)>) -> bool
    decreases entries, 1int, 0int,
{
    forall|i: int|
        0 <= i < entries.len() ==> round_trippable((#[trigger] entries[i]).0) && round_trippable(
            entries[i].1,
        )
}

pub open spec fn rt_values(values: Seq<(Seq<char>, RVal)>) -> bool
    decreases values, 1int, 0int,
{
    forall|i: int| 0 <= i < values.len() ==> round_trippable((#[trigger] values[i]).1)
}

/// With pairwise distinct names, looking up the `j`-th declared name finds
/// exactly `j`.
proof fn lemma_field_index_distinct(fields: Seq<(String, TypeShape)>, j: int)
    requires
        distinct_names(fields),
        0 <= j < fields.len(),
    ensures
        field_index(fields, fields[j].0@) == Some(j),
    decreases fields.len(),
{
    if j == 0 {
    } else {
        assert(fields[0].0@ != fields[j].0@);
        assert(distinct_names(fields.drop_first())) by {
            assert(forall|a: int, b: int|
                0 <= a < b < fields.drop_first().len() ==> (#[trigger] fields.drop_first()[a]).0@
                    == fields[a + 1].0@ && (#[trigger] fields.drop_first()[b]).0@ == fields[b
                    + 1].0@);
        }
        assert(fields.drop_first()[j - 1] == fields[j]);
        lemma_field_index_distinct(fields.drop_first(), j - 1);
    }
}

/// The round-trip law of typed decoding, under the default container
/// strategy: for every value in the shape it was declared with, decoding
/// its encoding gives the value back.
pub proof fn lemma_typed_round_trip(shape: TypeShape, r: RVal)
    requires
        shape_matches(shape, r),
        round_trippable(r),
    ensures
        spec_decode(shape, spec_ser(r, default_types())) == Ok::<RVal, SErr>(r),
    decreases shape, 1int, 0int,
{
    let t = default_types();
    match shape {
        TypeShape::Option(inner) => match r {
            RVal::OptionSome(x) => {
                lemma_typed_round_trip(*inner, *x);
                assert(spec_decode(shape, spec_ser(r, t)) == Ok::<RVal, SErr>(r));
            },
            _ => {
                assert(spec_decode(shape, spec_ser(r, t)) == Ok::<RVal, SErr>(r));
            },
        },
        TypeShape::NewtypeStruct(_name, inner) => match r {
            RVal::NewtypeStruct(_n, x) => {
                lemma_typed_round_trip(*inner, *x);
                assert(spec_decode(shape, spec_ser(r, t)) == Ok::<RVal, SErr>(r));
            },
            _ => {},
        },
        TypeShape::Sequence(elem) => match r {
            RVal::Sequence(items) => {
                lemma_rt_seq(*elem, items);
                assert(spec_ser_seq(items, t).skip(0) =~= spec_ser_seq(items, t));
                assert(spec_decode(shape, spec_ser(r, t)) == Ok::<RVal, SErr>(r));
            },
            _ => {},
        },
        TypeShape::Tuple(shapes) => match r {
            RVal::Tuple(items) => {
                lemma_spec_ser_seq(items, t);
                lemma_rt_zip(shapes@, items);
                assert(spec_ser(r, t) == PyVal::Tuple(spec_ser_seq(items, t)));
                assert(sequence_items(spec_ser(r, t)) == Some(spec_ser_seq(items, t)));
                assert(spec_ser_seq(items, t).len() == shapes@.len());
                assert(spec_decode_tuple(shapes@, spec_ser(r, t)) == Ok::<Seq<RVal>, SErr>(
                    items,
                ));
                assert(spec_decode(shape, spec_ser(r, t)) == Ok::<RVal, SErr>(r));
            },
            _ => {},
        },
        TypeShape::TupleStruct(_name, shapes) => match r {
            RVal::TupleStruct(_n, items) => {
                lemma_spec_ser_seq(items, t);
                lemma_rt_zip(shapes@, items);
                assert(spec_ser(r, t) == PyVal::Tuple(spec_ser_seq(items, t)));
                assert(sequence_items(spec_ser(r, t)) == Some(spec_ser_seq(items, t)));
                assert(spec_ser_seq(items, t).len() == shapes@.len());
                assert(spec_decode_tuple(shapes@, spec_ser(r, t)) == Ok::<Seq<RVal>, SErr>(
                    items,
                ));
            },
            _ => {},
        },
        TypeShape::Mapping(_kshape, _vshape) => match r {
            RVal::Mapping(entries) => {
                lemma_rt_pairs(shape, entries, 0);
                assert(spec_ser_entries(entries, t).skip(0) =~= spec_ser_entries(entries, t));
                assert(entries.skip(0) =~= entries);
                assert(spec_ser(r, t) == PyVal::Dict(spec_ser_entries(entries, t)));
                assert(mapping_entries(spec_ser(r, t)) == Some(spec_ser_entries(entries, t)));
                assert(spec_decode_pairs(shape, spec_ser_entries(entries, t)) == Ok::<
                    Seq<(RVal, RVal)>,
                    SErr,
                >(entries));
                assert(spec_decode(shape, spec_ser(r, t)) == Ok::<RVal, SErr>(r));
            },
            _ => {},
        },
        TypeShape::Struct(_name, fields) => match r {
            RVal::Struct(_n, values) => {
                lemma_rt_struct(fields@, values);
                assert(spec_decode(shape, spec_ser(r, t)) == Ok::<RVal, SErr>(r));
            },
            _ => {},
        },
        TypeShape::Enum(_name, _variants) => {
            lemma_rt_enum(shape, r);
        },
        _ => {},
    }
}


/// The enum case of the round-trip law.
proof fn lemma_rt_enum(shape: TypeShape, r: RVal)
    requires
        shape is Enum,
        shape_matches(shape, r),
        round_trippable(r),
    ensures
        spec_decode(shape, spec_ser(r, default_types())) == Ok::<RVal, SErr>(r),
    decreases shape, 0int, 0int,
{
    let t = default_types();
    let name = shape->Enum_0;
    let variants = shape->Enum_1;
    match r {
                RVal::UnitVariant(_n, var) => {
                    lemma_variant_index_facts(variants@, var);
                    assert(spec_ser(r, t) == PyVal::Str(var));
                    assert(spec_enum_access(PyVal::Str(var)) == Ok::<
                        (Seq<char>, Option<PyVal>),
                        SErr,
                    >((var, None::<PyVal>)));
                    let i = variant_index(variants@, var)->Some_0;
                    assert(variants@[i].0@ == var && variants@[i].1 is Unit);
                    assert(spec_decode_variant(name@, variants@[i], None::<PyVal>) == Ok::<
                        RVal,
                        SErr,
                    >(RVal::UnitVariant(name@, var)));
                    assert(spec_decode(shape, spec_ser(r, t)) == Ok::<RVal, SErr>(r));
                },
                RVal::NewtypeVariant(_n, var, x) => {
                    lemma_variant_index_facts(variants@, var);
                    let i = variant_index(variants@, var)->Some_0;
                    match variants@[i].1 {
                        VariantShape::Newtype(inner) => {
                            lemma_typed_round_trip(*inner, *x);
                            let p = spec_ser(*x, t);
                            assert(spec_enum_access(spec_ser(r, t)) == Ok::<
                                (Seq<char>, Option<PyVal>),
                                SErr,
                            >((var, Some(p))));
                            assert(variants@[i].0@ == var);
                            assert(spec_decode_variant(name@, variants@[i], Some(p)) == Ok::<
                                RVal,
                                SErr,
                            >(RVal::NewtypeVariant(name@, var, Box::new(*x))));
                            assert(spec_decode(shape, spec_ser(r, t)) == Ok::<RVal, SErr>(r));
                        },
                        _ => {},
                    }
                },
                RVal::TupleVariant(_n, var, items) => {
                    lemma_variant_index_facts(variants@, var);
                    let i = variant_index(variants@, var)->Some_0;
                    match variants@[i].1 {
                        VariantShape::Tuple(shapes) => {
                            lemma_spec_ser_seq(items, t);
                            lemma_rt_zip(shapes@, items);
                            let p = PyVal::Tuple(spec_ser_seq(items, t));
                            assert(spec_enum_access(spec_ser(r, t)) == Ok::<
                                (Seq<char>, Option<PyVal>),
                                SErr,
                            >((var, Some(p))));
                            assert(variants@[i].0@ == var);
                            assert(sequence_items(p) == Some(spec_ser_seq(items, t)));
                            assert(spec_ser_seq(items, t).len() == shapes@.len());
                            assert(spec_decode_tuple(shapes@, p) == Ok::<Seq<RVal>, SErr>(
                                items,
                            ));
                            assert(spec_decode_variant(name@, variants@[i], Some(p)) == Ok::<
                                RVal,
                                SErr,
                            >(RVal::TupleVariant(name@, var, items)));
                            assert(spec_decode(shape, spec_ser(r, t)) == Ok::<RVal, SErr>(r));
                        },
                        _ => {},
                    }
                },
                RVal::StructVariant(_n, var, values) => {
                    lemma_variant_index_facts(variants@, var);
                    let i = variant_index(variants@, var)->Some_0;
                    match variants@[i].1 {
                        VariantShape::Struct(fields) => {
                            lemma_rt_struct(fields@, values);
                            let p = spec_ser(r, t);
                            assert(spec_enum_access(p) == Ok::<(Seq<char>, Option<PyVal>), SErr>(
                                (var, Some(named_inner(var, values))),
                            ));
                            assert(variants@[i].0@ == var);
                            assert(mapping_entries(named_inner(var, values)) == Some(
                                spec_ser_fields(values, t),
                            ));
                            assert(spec_decode_struct(fields@, spec_ser_fields(values, t))
                                == Ok::<Seq<(Seq<char>, RVal)>, SErr>(values));
                            assert(spec_decode_variant(name@, variants@[i], Some(
                                named_inner(var, values),
                            )) == Ok::<RVal, SErr>(RVal::StructVariant(name@, var, values)));
                            assert(spec_decode(shape, spec_ser(r, t)) == Ok::<RVal, SErr>(r));
                        },
                        _ => {},
                    }
                },
                _ => {},
            }
}

/// The inner mapping a struct variant's payload encodes to.
spec fn named_inner(var: Seq<char>, values: Seq<(Seq<char>, RVal)>) -> PyVal {
    crate::ser::named_map_of(
        default_types().named_map,
        var,
        spec_ser_fields(values, default_types()),
    )
}

proof fn lemma_variant_index_facts(variants: Seq<(String, VariantShape)>, var: Seq<char>)
    ensures
        variant_index(variants, var) matches Some(i) ==> 0 <= i < variants.len() && variants[
            i
        ].0@ == var,
    decreases variants.len(),
{
    if variants.len() > 0 && variants[0].0@ != var {
        lemma_variant_index_facts(variants.drop_first(), var);
        match variant_index(variants.drop_first(), var) {
            Some(j) => {
                assert(variants.drop_first()[j] == variants[j + 1]);
            },
            None => {},
        }
    }
}

/// Elementwise round trip of an unconstrained sequence.
proof fn lemma_rt_seq(elem: TypeShape, items: Seq<RVal>)
    requires
        forall|i: int| 0 <= i < items.len() ==> shape_matches(elem, #[trigger] items[i]),
        rt_items(items),
    ensures
        spec_decode_elems(elem, spec_ser_seq(items, default_types())) == Ok::<Seq<RVal>, SErr>(
            items,
        ),
    decreases elem, 2int, items.len(),
{
    let t = default_types();
    lemma_spec_ser_seq(items, t);
    let s = spec_ser_seq(items, t);
    if items.len() == 0 {
        assert(s =~= Seq::<PyVal>::empty());
        assert(Ok::<Seq<RVal>, SErr>(Seq::empty()) == Ok::<Seq<RVal>, SErr>(items)) by {
            assert(items =~= Seq::<RVal>::empty());
        }
    } else {
        lemma_typed_round_trip(elem, items[0]);
        assert(s[0] == spec_ser(items[0], t));
        assert(forall|i: int|
            0 <= i < items.drop_first().len() ==> #[trigger] items.drop_first()[i] == items[i
                + 1]);
        lemma_rt_seq(elem, items.drop_first());
        assert(s.drop_first() =~= spec_ser_seq(items.drop_first(), t)) by {
            lemma_spec_ser_seq(items.drop_first(), t);
        }
        assert(seq![items[0]] + items.drop_first() =~= items);
    }
}

/// Positionwise round trip of a tuple's elements.
proof fn lemma_rt_zip(shapes: Seq<TypeShape>, items: Seq<RVal>)
    requires
        items.len() == shapes.len(),
        forall|i: int| 0 <= i < items.len() ==> shape_matches(shapes[i], #[trigger] items[i]),
        rt_items(items),
    ensures
        spec_decode_zip(shapes, spec_ser_seq(items, default_types())) == Ok::<Seq<RVal>, SErr>(
            items,
        ),
    decreases shapes, 2int, 0int,
{
    let t = default_types();
    lemma_spec_ser_seq(items, t);
    let s = spec_ser_seq(items, t);
    if items.len() == 0 {
        assert(items =~= Seq::<RVal>::empty());
    } else {
        lemma_typed_round_trip(shapes[0], items[0]);
        assert(forall|i: int|
            0 <= i < items.drop_first().len() ==> #[trigger] items.drop_first()[i] == items[i
                + 1]);
        assert(forall|i: int|
            0 <= i < shapes.drop_first().len() ==> #[trigger] shapes.drop_first()[i] == shapes[i
                + 1]);
        lemma_rt_zip(shapes.drop_first(), items.drop_first());
        assert(s.drop_first() =~= spec_ser_seq(items.drop_first(), t)) by {
            lemma_spec_ser_seq(items.drop_first(), t);
        }
        assert(seq![items[0]] + items.drop_first() =~= items);
    }
}

/// Pairwise round trip of a map's entries.
proof fn lemma_rt_pairs(shape: TypeShape, entries: Seq<(RVal, RVal)>, start: int)
    requires
        shape is Mapping,
        forall|i: int|
            0 <= i < entries.len() ==> shape_matches(*shape->Mapping_0, (#[trigger] entries[i]).0)
                && shape_matches(*shape->Mapping_1, entries[i].1),
        rt_entries(entries),
        0 <= start <= entries.len(),
    ensures
        spec_decode_pairs(shape, spec_ser_entries(entries, default_types()).skip(start)) == Ok::<
            Seq<(RVal, RVal)>,
            SErr,
        >(entries.skip(start)),
    decreases shape, 0int, entries.len() - start,
{
    let t = default_types();
    lemma_spec_ser_entries(entries, t);
    let s = spec_ser_entries(entries, t).skip(start);
    if start == entries.len() {
        assert(s =~= Seq::<(PyVal, PyVal)>::empty());
        assert(entries.skip(start) =~= Seq::<(RVal, RVal)>::empty());
    } else {
        assert(s[0] == (spec_ser(entries[start].0, t), spec_ser(entries[start].1, t)));
        lemma_typed_round_trip(*shape->Mapping_0, entries[start].0);
        lemma_typed_round_trip(*shape->Mapping_1, entries[start].1);
        lemma_rt_pairs(shape, entries, start + 1);
        assert(s.drop_first() =~= spec_ser_entries(entries, t).skip(start + 1));
        assert(seq![entries[start]] + entries.skip(start + 1) =~= entries.skip(start));
    }
}

/// Round trip of a struct: walking the encoded fields fills every slot with
/// the field's own value, and collecting returns the fields unchanged.
proof fn lemma_rt_struct(fields: Seq<(String, TypeShape)>, values: Seq<(Seq<char>, RVal)>)
    requires
        fields_match(fields, values),
        distinct_names(fields),
        rt_values(values),
    ensures
        spec_decode_struct(fields, spec_ser_fields(values, default_types())) == Ok::<
            Seq<(Seq<char>, RVal)>,
            SErr,
        >(values),
    decreases fields, 4int, 0int,
{
    let t = default_types();
    let full = Seq::new(fields.len(), |i: int| Some(values[i].1));
    lemma_rt_walk(fields, values, 0, Seq::new(fields.len(), |i: int| None::<RVal>));
    assert(Seq::new(fields.len(), |i: int| None::<RVal>).map(
        |i: int, x: Option<RVal>| x,
    ) =~= Seq::new(fields.len(), |i: int| None::<RVal>));
    lemma_rt_collect(fields, values, full);
    assert(spec_ser_fields(values, t).skip(0) =~= spec_ser_fields(values, t));
}

/// Walking the encoded entries from position `start`, with the first
/// `start` slots already filled, fills the rest.
proof fn lemma_rt_walk(
    fields: Seq<(String, TypeShape)>,
    values: Seq<(Seq<char>, RVal)>,
    start: int,
    acc: Seq<Option<RVal>>,
)
    requires
        fields_match(fields, values),
        distinct_names(fields),
        rt_values(values),
        0 <= start <= fields.len(),
        acc.len() == fields.len(),
        forall|i: int| 0 <= i < start ==> #[trigger] acc[i] == Some(values[i].1),
        forall|i: int| start <= i < acc.len() ==> #[trigger] acc[i] is None,
    ensures
        spec_struct_walk(fields, spec_ser_fields(values, default_types()).skip(start), acc)
            == Ok::<Seq<Option<RVal>>, SErr>(
            Seq::new(fields.len(), |i: int| Some(values[i].1)),
        ),
    decreases fields, 3int, fields.len() - start,
{
    let t = default_types();
    lemma_spec_ser_fields(values, t);
    let s = spec_ser_fields(values, t).skip(start);
    if start == fields.len() {
        assert(s =~= Seq::<(PyVal, PyVal)>::empty());
        assert(acc =~= Seq::new(fields.len(), |i: int| Some(values[i].1)));
    } else {
        assert(s[0] == (PyVal::Str(values[start].0), spec_ser(values[start].1, t)));
        assert(values[start].0 == fields[start].0@);
        lemma_field_index_distinct(fields, start);
        assert(field_index(fields, values[start].0) == Some(start));
        assert(acc[start] is None);
        lemma_typed_round_trip(fields[start].1, values[start].1);
        let acc2 = acc.update(start, Some(values[start].1));
        assert(s.drop_first() =~= spec_ser_fields(values, t).skip(start + 1));
        lemma_rt_walk(fields, values, start + 1, acc2);
    }
}

/// Collecting a fully filled accumulator returns the fields in declaration
/// order.
proof fn lemma_rt_collect(
    fields: Seq<(String, TypeShape)>,
    values: Seq<(Seq<char>, RVal)>,
    acc: Seq<Option<RVal>>,
)
    requires
        values.len() == fields.len(),
        acc.len() == fields.len(),
        forall|i: int| 0 <= i < fields.len() ==> (#[trigger] fields[i]).0@ == values[i].0,
        forall|i: int| 0 <= i < acc.len() ==> #[trigger] acc[i] == Some(values[i].1),
    ensures
        spec_struct_collect(fields, acc) == Ok::<Seq<(Seq<char>, RVal)>, SErr>(values),
    decreases fields.len(),
{
    if fields.len() == 0 {
        assert(values =~= Seq::<(Seq<char>, RVal)>::empty());
    } else {
        assert(acc[0] == Some(values[0].1));
        assert(forall|i: int|
            0 <= i < fields.drop_first().len() ==> (#[trigger] fields.drop_first()[i]) == fields[i
                + 1]);
        assert(forall|i: int|
            0 <= i < values.drop_first().len() ==> (#[trigger] values.drop_first()[i]) == values[i
                + 1]);
        assert(forall|i: int|
            0 <= i < acc.drop_first().len() ==> (#[trigger] acc.drop_first()[i]) == acc[i + 1]);
        lemma_rt_collect(fields.drop_first(), values.drop_first(), acc.drop_first());
        assert(values[0] == (fields[0].0@, values[0].1));
        assert(seq![(fields[0].0@, values[0].1)] + values.drop_first() =~= values);
    }
}

/// Tuple arity is enforced: decoding a sequence-capable object into a
/// fixed-arity tuple target whose arity differs fails with exactly the
/// arity-mismatch error, naming both lengths.
pub proof fn lemma_tuple_arity(shapes: Seq<TypeShape>, p: PyVal)
    requires
        sequence_items(p) matches Some(items) && items.len() != shapes.len(),
    ensures
        spec_decode_tuple(shapes, p) == Err::<Seq<RVal>, SErr>(
            SErr::IncorrectSequenceLength {
                expected: shapes.len() as int,
                got: sequence_items(p)->Some_0.len() as int,
            },
        ),
{
}

/// The set-as-sequence fallback: a set or frozenset decodes into an
/// unconstrained sequence target exactly as the list of its elements, in the
/// set's own iteration order.
pub proof fn lemma_set_as_sequence(elem: TypeShape, items: Seq<PyVal>)
    ensures
        spec_decode(TypeShape::Sequence(Box::new(elem)), PyVal::PySet(items)) == (
        match spec_decode_elems(elem, items) {
            Ok(out) => Ok::<RVal, SErr>(RVal::Sequence(out)),
            Err(e) => Err::<RVal, SErr>(e),
        }),
        spec_decode(TypeShape::Sequence(Box::new(elem)), PyVal::FrozenSet(items)) == (
        match spec_decode_elems(elem, items) {
            Ok(out) => Ok::<RVal, SErr>(RVal::Sequence(out)),
            Err(e) => Err::<RVal, SErr>(e),
        }),
{
}

/// Field enumeration order is preserved on encode: under every container
/// strategy, an encoded struct is mapping-capable, has one entry per
/// declared field, and its `i`-th key is the `i`-th declared field's name.
pub proof fn lemma_struct_field_order(
    name: Seq<char>,
    fields: Seq<(Seq<char>, RVal)>,
    t: PythonizeTypes,
)
    ensures
        mapping_entries(spec_ser(RVal::Struct(name, fields), t)) matches Some(entries),
        mapping_entries(spec_ser(RVal::Struct(name, fields), t))->Some_0.len() == fields.len(),
        forall|i: int|
            0 <= i < fields.len() ==> mapping_entries(
                spec_ser(RVal::Struct(name, fields), t),
            )->Some_0[i].0 == PyVal::Str(fields[i].0),
{
    lemma_spec_ser_fields(fields, t);
    assert(spec_ser(RVal::Struct(name, fields), t) == named_map_of(
        t.named_map,
        name,
        spec_ser_fields(fields, t),
    ));
}

} // verus!
