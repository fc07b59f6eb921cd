//! Buckets of snapshots, keyed by label, title and tag, that are stacked
//! into one record each when their label is flushed.
use vstd::prelude::*;
use array_object::ArrayObject;
use crate::codec::{
    array_data, array_shape, array_type, data_concat, pack, packed, packs_deterministically,
    stackable, try_concat,
};
use crate::wire::{Record, RecordView};

verus! {

/// The snapshots gathered under one label, title and tag, oldest first.
pub struct Bucket {
    pub label: String,
    pub title: String,
    pub tag: String,
    pub items: Vec<ArrayObject>,
}

/// What a bucket is, mathematically.
pub struct BucketView {
    pub label: Seq<char>,
    pub title: Seq<char>,
    pub tag: Seq<char>,
    pub items: Seq<ArrayObject>,
}

impl View for Bucket {
    type V = BucketView;

    open spec fn view(&self) -> BucketView {
        BucketView {
            label: self.label@,
            title: self.title@,
            tag: self.tag@,
            items: self.items@,
        }
    }
}

/// Whether bucket `b` has the key `(label, title, tag)`.
pub open spec fn has_key(b: BucketView, label: Seq<char>, title: Seq<char>, tag: Seq<char>) -> bool {
    b.label == label && b.title == title && b.tag == tag
}

/// The table after appending `obj` under `(label, title, tag)`: pushed onto
/// that bucket if there is one, else in a new bucket at the end.
pub open spec fn appended(
    v: Seq<BucketView>,
    label: Seq<char>,
    title: Seq<char>,
    tag: Seq<char>,
    obj: ArrayObject,
) -> Seq<BucketView> {
    if exists|i: int| 0 <= i < v.len() && has_key(#[trigger] v[i], label, title, tag) {
        let i = choose|i: int| 0 <= i < v.len() && has_key(#[trigger] v[i], label, title, tag);
        v.update(i, BucketView { items: v[i].items.push(obj), ..v[i] })
    } else {
        v.push(BucketView { label, title, tag, items: seq![obj] })
    }
}

/// The buckets of `v` under `label`, in order.
pub open spec fn with_label(v: Seq<BucketView>, label: Seq<char>) -> Seq<BucketView>
    decreases v.len(),
{
    if v.len() == 0 {
        Seq::empty()
    } else if v.last().label == label {
        with_label(v.drop_last(), label).push(v.last())
    } else {
        with_label(v.drop_last(), label)
    }
}

/// The buckets of `v` under any other label than `label`, in order.
pub open spec fn without_label(v: Seq<BucketView>, label: Seq<char>) -> Seq<BucketView>
    decreases v.len(),
{
    if v.len() == 0 {
        Seq::empty()
    } else if v.last().label != label {
        without_label(v.drop_last(), label).push(v.last())
    } else {
        without_label(v.drop_last(), label)
    }
}

/// The table of pending buckets.
pub struct AccumulationTable {
    buckets: Vec<Bucket>,
}

impl View for AccumulationTable {
    type V = Seq<BucketView>;

    closed spec fn view(&self) -> Seq<BucketView> {
        self.buckets@.map_values(|b: Bucket| b@)
    }
}

/// Whether no two buckets share a key and none is empty.
pub open spec fn table_wf(v: Seq<BucketView>) -> bool {
    &&& forall|i: int, j: int|
        0 <= i < j < v.len() ==> !has_key(#[trigger] v[i], v[j].label, v[j].title, #[trigger] v[j].tag)
    &&& forall|i: int| 0 <= i < v.len() ==> (#[trigger] v[i]).items.len() > 0
}

impl AccumulationTable {
    pub open spec fn wf(&self) -> bool {
        table_wf(self@)
    }

    /// An empty table.
    pub fn new() -> (r: AccumulationTable)
        ensures
            r.wf(),
            r@ == Seq::<BucketView>::empty(),
    {
        let r = AccumulationTable { buckets: Vec::new() };
        assert(r@ =~= Seq::<BucketView>::empty());
        r
    }

    /// Appends `obj` to the bucket `(label, title, tag)`, making the bucket
    /// if it is not there yet. Snapshots keep their order within a bucket.
    pub fn append(&mut self, label: &String, title: &String, tag: &String, obj: ArrayObject)
        requires
            old(self).wf(),
        ensures
            final(self).wf(),
            final(self)@ == appended(old(self)@, label@, title@, tag@, obj),
    {
        let ghost v = self@;
        let mut i: usize = 0;
        while i < self.buckets.len()
            invariant
                self@ == v,
                v == old(self)@,
                table_wf(v),
                i <= v.len(),
                forall|j: int| 0 <= j < i ==> !has_key(#[trigger] v[j], label@, title@, tag@),
            decreases v.len() - i,
        {
            if self.buckets[i].label == *label && self.buckets[i].title == *title
                && self.buckets[i].tag == *tag {
                assert(has_key(v[i as int], label@, title@, tag@));
                let mut b = self.buckets.remove(i);
                assert(b@ == v[i as int]);
                b.items.push(obj);
                let ghost nb = b@;
                assert(nb == BucketView { items: v[i as int].items.push(obj), ..v[i as int] });
                self.buckets.insert(i, b);
                proof {
                    let k = choose|k: int| 0 <= k < v.len() && has_key(#[trigger] v[k], label@, title@, tag@);
                    if k != i {
                        if k < i {
                            assert(!has_key(v[k], v[i as int].label, v[i as int].title, v[i as int].tag));
                        } else {
                            assert(!has_key(v[i as int], v[k].label, v[k].title, v[k].tag));
                        }
                    }
                    assert(appended(v, label@, title@, tag@, obj) == v.update(i as int, nb));
                    assert(self@ =~= v.update(i as int, nb));
                }
                return;
            }
            i = i + 1;
        }
        let mut items: Vec<ArrayObject> = Vec::new();
        items.push(obj);
        let b = Bucket { label: label.clone(), title: title.clone(), tag: tag.clone(), items };
        assert(b@ == BucketView { label: label@, title: title@, tag: tag@, items: seq![obj] }) by {
            assert(b.items@ =~= seq![obj]);
        }
        self.buckets.push(b);
        proof {
            assert(self@ =~= appended(v, label@, title@, tag@, obj));
        }
    }

    /// Removes every bucket under `label` and returns them, in order. The
    /// other buckets stay, in order.
    pub fn drain_label(&mut self, label: &String) -> (r: Vec<Bucket>)
        requires
            old(self).wf(),
        ensures
            final(self).wf(),
            r@.map_values(|b: Bucket| b@) == with_label(old(self)@, label@),
            final(self)@ == without_label(old(self)@, label@),
    {
        let ghost v = self@;
        let mut rest: Vec<Bucket> = Vec::new();
        rest.append(&mut self.buckets);
        let ghost orig = rest@;
        let mut taken: Vec<Bucket> = Vec::new();
        assert(orig.take(0).map_values(|b: Bucket| b@) =~= Seq::<BucketView>::empty());
        while rest.len() > 0
            invariant
                orig.map_values(|b: Bucket| b@) == v,
                rest@ == orig.skip(orig.len() - rest@.len()),
                rest@.len() <= orig.len(),
                taken@.map_values(|b: Bucket| b@) == with_label(
                    orig.take(orig.len() - rest@.len()).map_values(|b: Bucket| b@),
                    label@,
                ),
                self@ == without_label(
                    orig.take(orig.len() - rest@.len()).map_values(|b: Bucket| b@),
                    label@,
                ),
            decreases rest@.len(),
        {
            let ghost k = orig.len() - rest@.len();
            let b = rest.remove(0);
            proof {
                assert(b == orig[k]);
                let p = orig.take(k + 1).map_values(|b: Bucket| b@);
                assert(p.drop_last() =~= orig.take(k).map_values(|b: Bucket| b@));
                assert(p.last() == b@);
                assert(rest@ =~= orig.skip(k + 1));
            }
            if b.label == *label {
                taken.push(b);
                proof {
                    assert(taken@.map_values(|b: Bucket| b@) =~= with_label(
                        orig.take(k).map_values(|b: Bucket| b@),
                        label@,
                    ).push(b@));
                }
            } else {
                self.buckets.push(b);
                proof {
                    assert(self@ =~= without_label(
                        orig.take(k).map_values(|b: Bucket| b@),
                        label@,
                    ).push(b@));
                }
            }
        }
        proof {
            assert(orig.take(orig.len() as int) =~= orig);
            lemma_without_label_wf(v, label@);
        }
        taken
    }
}

/// Why a flush of accumulated snapshots failed.
#[derive(Debug, PartialEq, Eq, Structural)]
pub enum FlushError {
    /// The snapshots of a bucket could not be stacked into one array: they
    /// differ in shape, size or type, or have too many axes.
    ConcatFailed,
}

/// Whether `r` is the record made of bucket `b`: same title and tag, and a
/// payload that packs the bucket's snapshots stacked along a new leading
/// axis (for strings the packed bytes are not pinned down).
pub open spec fn stacked(r: RecordView, b: BucketView) -> bool {
    &&& r.title == b.title
    &&& r.tag == b.tag
    &&& exists|o: ArrayObject|
        #[trigger] array_data(o) == data_concat(b.items) && array_shape(o) == seq![
            b.items.len() as u64,
        ] + array_shape(b.items[0]) && array_type(o) == array_type(b.items[0]) && (
        packs_deterministically(o) ==> packed(o) == r.payload)
}

impl AccumulationTable {
    /// Removes every bucket under `label` and makes one record of each, in
    /// order, its snapshots stacked into one array. The buckets are gone
    /// whether or not stacking succeeds; a bucket whose snapshots cannot be
    /// stacked fails the whole flush.
    pub fn flush_label(&mut self, label: &String) -> (r: Result<Vec<Record>, FlushError>)
        requires
            old(self).wf(),
        ensures
            final(self).wf(),
            final(self)@ == without_label(old(self)@, label@),
            r matches Ok(recs) ==> recs@.len() == with_label(old(self)@, label@).len() && forall|
                i: int,
            |
                0 <= i < recs@.len() ==> stacked(
                    #[trigger] recs@[i]@,
                    with_label(old(self)@, label@)[i],
                ),
            r is Ok <==> forall|i: int|
                0 <= i < with_label(old(self)@, label@).len() ==> stackable(
                    #[trigger] with_label(old(self)@, label@)[i].items,
                ),
    {
        proof {
            lemma_with_label_nonempty(self@, label@);
        }
        let ghost w = with_label(self@, label@);
        let mut drained = self.drain_label(label);
        let ghost orig = drained@;
        let mut out: Vec<Record> = Vec::new();
        while drained.len() > 0
            invariant
                self.wf(),
                self@ == without_label(old(self)@, label@),
                w == with_label(old(self)@, label@),
                orig.map_values(|b: Bucket| b@) == w,
                forall|i: int| 0 <= i < w.len() ==> (#[trigger] w[i]).items.len() > 0,
                drained@ == orig.skip(orig.len() - drained@.len()),
                drained@.len() <= orig.len(),
                out@.len() == orig.len() - drained@.len(),
                forall|i: int| 0 <= i < out@.len() ==> stacked(#[trigger] out@[i]@, w[i]),
                forall|i: int| 0 <= i < out@.len() ==> stackable(#[trigger] w[i].items),
            decreases drained@.len(),
        {
            let ghost k = orig.len() - drained@.len();
            let b = drained.remove(0);
            proof {
                assert(b == orig[k]);
                assert(b@ == w[k]);
                assert(drained@ =~= orig.skip(k + 1));
            }
            let Bucket { label: _, title, tag, items } = b;
            match try_concat(items) {
                Some(o) => {
                    let ghost o_view = o;
                    let rec = Record { title, tag, payload: pack(o) };
                    assert(packs_deterministically(o_view) ==> packed(o_view) == rec@.payload);
                    let ghost prev = out@;
                    out.push(rec);
                    proof {
                        assert(out@[k]@ == rec@);
                        assert(stacked(out@[k]@, w[k]));
                        assert forall|i: int| 0 <= i < out@.len() implies stacked(
                            #[trigger] out@[i]@,
                            w[i],
                        ) by {
                            if i < k {
                                assert(out@[i] == prev[i]);
                            }
                        }
                    }
                },
                None => {
                    return Err(FlushError::ConcatFailed);
                },
            }
        }
        Ok(out)
    }
}

proof fn lemma_with_label_nonempty(v: Seq<BucketView>, label: Seq<char>)
    requires
        table_wf(v),
    ensures
        forall|i: int|
            0 <= i < with_label(v, label).len() ==> (#[trigger] with_label(v, label)[i]).items.len()
                > 0,
    decreases v.len(),
{
    if v.len() > 0 {
        let d = v.drop_last();
        assert forall|i: int, j: int|
            0 <= i < j < d.len() implies !has_key(#[trigger] d[i], d[j].label, d[j].title, #[trigger] d[j].tag) by {
            assert(d[i] == v[i] && d[j] == v[j]);
        }
        assert forall|i: int| 0 <= i < d.len() implies (#[trigger] d[i]).items.len() > 0 by {
            assert(d[i] == v[i]);
        }
        lemma_with_label_nonempty(d, label);
        assert(v[v.len() - 1] == v.last());
        let w = with_label(d, label);
        if v.last().label == label {
            assert forall|i: int| 0 <= i < w.len() + 1 implies (#[trigger] w.push(v.last())[i]).items.len() > 0 by {
                if i < w.len() {
                    assert(w.push(v.last())[i] == w[i]);
                }
            }
        }
    }
}

/// The table after appending `objs` in order under `(label, title, tag)`.
pub open spec fn appended_all(
    v: Seq<BucketView>,
    label: Seq<char>,
    title: Seq<char>,
    tag: Seq<char>,
    objs: Seq<ArrayObject>,
) -> Seq<BucketView>
    decreases objs.len(),
{
    if objs.len() == 0 {
        v
    } else {
        appended(appended_all(v, label, title, tag, objs.drop_last()), label, title, tag, objs.last())
    }
}

proof fn lemma_no_label(v: Seq<BucketView>, label: Seq<char>)
    requires
        with_label(v, label).len() == 0,
    ensures
        without_label(v, label) == v,
        forall|i: int| 0 <= i < v.len() ==> (#[trigger] v[i]).label != label,
    decreases v.len(),
{
    if v.len() > 0 {
        let d = v.drop_last();
        lemma_no_label(d, label);
        assert(v.last().label != label);
        assert(d.push(v.last()) =~= v);
        assert forall|i: int| 0 <= i < v.len() implies (#[trigger] v[i]).label != label by {
            if i < d.len() {
                assert(v[i] == d[i]);
            }
        }
    }
}

proof fn lemma_appended_all_fresh(
    v: Seq<BucketView>,
    label: Seq<char>,
    title: Seq<char>,
    tag: Seq<char>,
    objs: Seq<ArrayObject>,
)
    requires
        objs.len() > 0,
        forall|i: int| 0 <= i < v.len() ==> (#[trigger] v[i]).label != label,
    ensures
        appended_all(v, label, title, tag, objs) == v.push(
            BucketView { label, title, tag, items: objs },
        ),
    decreases objs.len(),
{
    let d = objs.drop_last();
    if d.len() == 0 {
        assert(appended_all(v, label, title, tag, d) == v);
        assert(!(exists|i: int| 0 <= i < v.len() && has_key(#[trigger] v[i], label, title, tag)));
        assert(seq![objs.last()] =~= objs);
    } else {
        lemma_appended_all_fresh(v, label, title, tag, d);
        let t = v.push(BucketView { label, title, tag, items: d });
        assert(has_key(t[v.len() as int], label, title, tag));
        let k = choose|i: int| 0 <= i < t.len() && has_key(#[trigger] t[i], label, title, tag);
        if k < v.len() {
            assert(t[k] == v[k]);
        }
        assert(d.push(objs.last()) =~= objs);
        assert(appended(t, label, title, tag, objs.last()) =~= v.push(
            BucketView { label, title, tag, items: objs },
        ));
    }
}

/// Accumulation round trip: appending snapshots `objs` in order under one
/// key of a label that has no bucket yet, then draining the label, yields one
/// bucket holding `objs` in their order and leaves the rest of the table as
/// it was; draining the label again yields nothing.
pub proof fn lemma_accumulate_round_trip(
    v: Seq<BucketView>,
    label: Seq<char>,
    title: Seq<char>,
    tag: Seq<char>,
    objs: Seq<ArrayObject>,
)
    requires
        objs.len() > 0,
        with_label(v, label).len() == 0,
    ensures
        with_label(appended_all(v, label, title, tag, objs), label) == seq![
            BucketView { label, title, tag, items: objs },
        ],
        without_label(appended_all(v, label, title, tag, objs), label) == v,
        with_label(without_label(appended_all(v, label, title, tag, objs), label), label).len()
            == 0,
{
    lemma_no_label(v, label);
    lemma_appended_all_fresh(v, label, title, tag, objs);
    let b = BucketView { label, title, tag, items: objs };
    assert(v.push(b).drop_last() =~= v);
    assert(seq![b] =~= Seq::<BucketView>::empty().push(b));
}

/// Keeping only some buckets keeps the table well formed.
proof fn lemma_without_label_wf(v: Seq<BucketView>, label: Seq<char>)
    requires
        table_wf(v),
    ensures
        table_wf(without_label(v, label)),
        forall|i: int|
            0 <= i < without_label(v, label).len() ==> v.contains(
                #[trigger] without_label(v, label)[i],
            ),
    decreases v.len(),
{
    if v.len() > 0 {
        let d = v.drop_last();
        assert forall|i: int, j: int|
            0 <= i < j < d.len() implies !has_key(#[trigger] d[i], d[j].label, d[j].title, #[trigger] d[j].tag) by {
            assert(d[i] == v[i] && d[j] == v[j]);
        }
        assert forall|i: int| 0 <= i < d.len() implies (#[trigger] d[i]).items.len() > 0 by {
            assert(d[i] == v[i]);
        }
        lemma_without_label_wf(d, label);
        let w = without_label(d, label);
        assert forall|i: int| 0 <= i < w.len() implies v.contains(#[trigger] w[i]) by {
            let j = choose|j: int| 0 <= j < d.len() && d[j] == w[i];
            assert(v[j] == w[i]);
        }
        if v.last().label != label {
            let w2 = w.push(v.last());
            assert(v[v.len() - 1] == v.last());
            assert forall|i: int| 0 <= i < w2.len() implies v.contains(#[trigger] w2[i]) by {
                if i < w.len() {
                    assert(w2[i] == w[i]);
                } else {
                    assert(w2[i] == v[v.len() - 1]);
                }
            }
            assert forall|i: int, j: int|
                0 <= i < j < w2.len() implies !has_key(#[trigger] w2[i], w2[j].label, w2[j].title, #[trigger] w2[j].tag) by {
                if j == w.len() {
                    assert(w2[i] == w[i]);
                    let a = choose|a: int| 0 <= a < d.len() && d[a] == w[i];
                    assert(v[a] == d[a]);
                    assert(!has_key(v[a], v[v.len() - 1].label, v[v.len() - 1].title, v[v.len() - 1].tag));
                } else {
                    assert(w2[i] == w[i] && w2[j] == w[j]);
                }
            }
            assert forall|i: int| 0 <= i < w2.len() implies (#[trigger] w2[i]).items.len() > 0 by {
                if i < w.len() {
                    assert(w2[i] == w[i]);
                    let a = choose|a: int| 0 <= a < d.len() && d[a] == w[i];
                } else {
                    assert(w2[i] == v[v.len() - 1]);
                }
            }
        } else {
            assert forall|i: int| 0 <= i < w.len() implies (#[trigger] w[i]).items.len() > 0 by {
                let a = choose|a: int| 0 <= a < d.len() && d[a] == w[i];
            }
        }
    }
}

} // verus!
