//! The snapshot codec of array-object, as far as this library relies on it.
//!
//! An `ArrayObject` is an array of numbers or strings with a shape; this
//! library only carries it, stacks several of them, and packs it to bytes.
use vstd::prelude::*;
use array_object::{ArrayObject, DataType};
use crate::wire::Record;

verus! {

#[verifier::external_type_specification]
#[verifier::external_body]
pub struct ExArrayObject(ArrayObject);

#[verifier::external_type_specification]
pub struct ExDataType(DataType);

/// The shape of an array, outermost axis first.
pub uninterp spec fn array_shape(a: ArrayObject) -> Seq<u64>;

/// The raw element data of an array, in row-major order.
pub uninterp spec fn array_data(a: ArrayObject) -> Seq<u8>;

/// The kind of the elements of an array.
pub uninterp spec fn array_type(a: ArrayObject) -> DataType;

/// The bytes that `Pack::pack` makes of an array whose elements are not
/// strings (only then do they depend on the array alone).
pub uninterp spec fn packed(a: ArrayObject) -> Seq<u8>;

/// Whether the packed form of `a` is a function of `a`: true unless its
/// elements are strings, whose dictionary is written in a hash map's order.
pub open spec fn packs_deterministically(a: ArrayObject) -> bool {
    !(array_type(a) is String)
}

/// The data of `objs`, end to end.
pub open spec fn data_concat(objs: Seq<ArrayObject>) -> Seq<u8>
    decreases objs.len(),
{
    if objs.len() == 0 {
        Seq::empty()
    } else {
        data_concat(objs.drop_last()) + array_data(objs.last())
    }
}

/// Whether every array of `objs` has the shape, the data size and the
/// element kind of the first.
pub open spec fn uniform(objs: Seq<ArrayObject>) -> bool {
    forall|i: int|
        0 <= i < objs.len() ==> array_shape(#[trigger] objs[i]) == array_shape(objs[0])
            && array_data(objs[i]).len() == array_data(objs[0]).len() && array_type(objs[i])
            == array_type(objs[0])
}

/// Whether the codec stacks `objs`: the first has at most fourteen axes and
/// all agree with it.
pub open spec fn stackable(objs: Seq<ArrayObject>) -> bool {
    array_shape(objs[0]).len() <= 14 && uniform(objs)
}

/// Relies on `TryConcat::try_concat` for `Vec<ArrayObject>`: it indexes the
/// first array (so `objs` must not be empty); it fails when that array has
/// more than fourteen axes, or when an array's shape, data size or data type
/// differs from the first's; otherwise the result has a new leading axis of
/// length `objs.len()` before the first's shape, and the data end to end.
#[verifier::external_body]
pub(crate) fn try_concat(objs: Vec<ArrayObject>) -> (r: Option<ArrayObject>)
    requires
        objs@.len() > 0,
    ensures
        r is Some <==> stackable(objs@),
        r matches Some(o) ==> array_shape(o) == seq![objs@.len() as u64] + array_shape(objs@[0])
            && array_data(o) == data_concat(objs@) && array_type(o) == array_type(objs@[0]),
{
    array_object::TryConcat::try_concat(objs).ok()
}

/// Relies on `Pack::pack` for `ArrayObject`: for numbers the packed bytes
/// depend on the array alone; for strings they depend on the order in which
/// a `HashMap` is walked, so nothing is said of them.
#[verifier::external_body]
pub(crate) fn pack(obj: ArrayObject) -> (r: Vec<u8>)
    ensures
        packs_deterministically(obj) ==> r@ == packed(obj),
{
    array_object::Pack::pack(obj)
}

/// Stacks `objs` into one array along a new leading axis, as the codec does.
/// `None` when there is nothing to stack, when the first array has more than
/// fourteen axes, or when the arrays differ in shape, data size or element
/// kind.
pub fn concat_all(objs: Vec<ArrayObject>) -> (r: Option<ArrayObject>)
    ensures
        r is Some <==> objs@.len() > 0 && stackable(objs@),
        r matches Some(o) ==> array_shape(o) == seq![objs@.len() as u64] + array_shape(objs@[0])
            && array_data(o) == data_concat(objs@) && array_type(o) == array_type(objs@[0]),
{
    if objs.len() == 0 {
        None
    } else {
        try_concat(objs)
    }
}

/// A record of `obj` under `title` and `tag`, its payload the packed bytes.
pub fn snapshot(title: String, tag: String, obj: ArrayObject) -> (r: Record)
    ensures
        r.title == title,
        r.tag == tag,
        packs_deterministically(obj) ==> r.payload@ == packed(obj),
{
    Record { title, tag, payload: pack(obj) }
}

/// One record for each of `objs`, in order, all under `title` and `tag`:
/// how the elements of a collection are posted one by one.
pub fn snapshots(title: &String, tag: &String, objs: Vec<ArrayObject>) -> (r: Vec<Record>)
    ensures
        r@.len() == objs@.len(),
        forall|i: int|
            0 <= i < r@.len() ==> (#[trigger] r@[i]).title@ == title@ && r@[i].tag@ == tag@
                && (packs_deterministically(objs@[i]) ==> r@[i].payload@ == packed(objs@[i])),
{
    let ghost all = objs@;
    let mut rest = objs;
    let mut out: Vec<Record> = Vec::new();
    while rest.len() > 0
        invariant
            rest@ == all.skip(all.len() - rest@.len()),
            rest@.len() <= all.len(),
            out@.len() == all.len() - rest@.len(),
            forall|i: int|
                0 <= i < out@.len() ==> (#[trigger] out@[i]).title@ == title@ && out@[i].tag@
                    == tag@ && (packs_deterministically(all[i]) ==> out@[i].payload@ == packed(
                    all[i],
                )),
        decreases rest@.len(),
    {
        let ghost k = all.len() - rest@.len();
        let obj = rest.remove(0);
        proof {
            assert(obj == all[k]);
            assert(rest@ =~= all.skip(k + 1));
        }
        let rec = snapshot(title.clone(), tag.clone(), obj);
        out.push(rec);
    }
    out
}

} // verus!
