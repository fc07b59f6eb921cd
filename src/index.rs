//! Tags for the elements of a collection that is posted element by element:
//! the call site's tag followed by the element's position, as in
//! `src/main.rs:3:5:[1,0]`.
use vstd::prelude::*;
use vstd::string::StringExecFns;
use array_object::ArrayObject;
use crate::codec::{packed, packs_deterministically, snapshot};
use crate::wire::Record;

verus! {

/// The decimal digit `d`, for `d < 10`.
pub open spec fn digit_char(d: nat) -> char {
    if d == 0 { '0' }
    else if d == 1 { '1' }
    else if d == 2 { '2' }
    else if d == 3 { '3' }
    else if d == 4 { '4' }
    else if d == 5 { '5' }
    else if d == 6 { '6' }
    else if d == 7 { '7' }
    else if d == 8 { '8' }
    else { '9' }
}

/// `n` written in decimal, without leading zeros.
pub open spec fn decimal(n: nat) -> Seq<char>
    decreases n,
{
    if n < 10 {
        seq![digit_char(n)]
    } else {
        decimal(n / 10).push(digit_char(n % 10))
    }
}

/// The positions `idx` written in decimal and separated by commas.
pub open spec fn join_indices(idx: Seq<usize>) -> Seq<char>
    decreases idx.len(),
{
    if idx.len() == 0 {
        Seq::empty()
    } else if idx.len() == 1 {
        decimal(idx[0] as nat)
    } else {
        join_indices(idx.drop_last()) + seq![','] + decimal(idx.last() as nat)
    }
}

/// The tag of the element at position `idx` under the call site's `tag`.
pub open spec fn spec_index_tag(tag: Seq<char>, idx: Seq<usize>) -> Seq<char> {
    tag + seq![':', '['] + join_indices(idx) + seq![']']
}

fn push_digit(s: &mut String, d: usize)
    requires
        d < 10,
    ensures
        final(s)@ == old(s)@.push(digit_char(d as nat)),
{
    proof {
        reveal_strlit("0");
        reveal_strlit("1");
        reveal_strlit("2");
        reveal_strlit("3");
        reveal_strlit("4");
        reveal_strlit("5");
        reveal_strlit("6");
        reveal_strlit("7");
        reveal_strlit("8");
        reveal_strlit("9");
    }
    let t = if d == 0 { "0" }
    else if d == 1 { "1" }
    else if d == 2 { "2" }
    else if d == 3 { "3" }
    else if d == 4 { "4" }
    else if d == 5 { "5" }
    else if d == 6 { "6" }
    else if d == 7 { "7" }
    else if d == 8 { "8" }
    else { "9" };
    assert(t@ =~= seq![digit_char(d as nat)]);
    s.append(t);
}

fn push_decimal(s: &mut String, n: usize)
    ensures
        final(s)@ == old(s)@ + decimal(n as nat),
    decreases n,
{
    if n >= 10 {
        push_decimal(s, n / 10);
    }
    push_digit(s, n % 10);
    assert(final(s)@ =~= old(s)@ + decimal(n as nat)) by {
        if n < 10 {
            assert(n % 10 == n);
        }
    }
}

/// The call site's `tag` followed by the position `idx` of an element:
/// `tag:[i,j,...]`.
pub fn index_tag(tag: &String, idx: &Vec<usize>) -> (r: String)
    ensures
        r@ == spec_index_tag(tag@, idx@),
{
    proof {
        reveal_strlit(":[");
        reveal_strlit("]");
    }
    let mut s = tag.clone();
    s.append(":[");
    let ghost head = s@;
    let mut i: usize = 0;
    while i < idx.len()
        invariant
            i <= idx@.len(),
            head == tag@ + seq![':', '['],
            s@ == head + join_indices(idx@.take(i as int)),
        decreases idx@.len() - i,
    {
        proof {
            let t = idx@.take(i as int + 1);
            assert(t.drop_last() =~= idx@.take(i as int));
            assert(t.last() == idx@[i as int]);
        }
        let ghost before = s@;
        if i > 0 {
            proof {
                reveal_strlit(",");
            }
            s.append(",");
        }
        let ghost mid = s@;
        push_decimal(&mut s, idx[i]);
        proof {
            let t = idx@.take(i as int + 1);
            let d = decimal(idx@[i as int] as nat);
            if i == 0 {
                assert(t.len() == 1);
                assert(join_indices(t) == d);
                assert(idx@.take(0) =~= Seq::<usize>::empty());
                assert(mid == before);
                assert(s@ =~= head + join_indices(t));
            } else {
                assert(join_indices(t) == join_indices(idx@.take(i as int)) + seq![','] + d);
                assert(mid =~= before + seq![',']);
                assert(s@ =~= head + join_indices(t));
            }
        }
        i = i + 1;
    }
    s.append("]");
    assert(idx@.take(idx@.len() as int) =~= idx@);
    assert(s@ =~= spec_index_tag(tag@, idx@));
    s
}

/// One record for each element, in order, under `title`, each tagged with
/// the call site's `tag` and its position.
pub fn indexed_snapshots(title: &String, tag: &String, elems: Vec<(Vec<usize>, ArrayObject)>) -> (r: Vec<Record>)
    ensures
        r@.len() == elems@.len(),
        forall|i: int|
            0 <= i < r@.len() ==> (#[trigger] r@[i]).title@ == title@ && r@[i].tag@
                == spec_index_tag(tag@, elems@[i].0@) && (packs_deterministically(elems@[i].1)
                ==> r@[i].payload@ == packed(elems@[i].1)),
{
    let ghost all = elems@;
    let mut rest = elems;
    let mut out: Vec<Record> = Vec::new();
    while rest.len() > 0
        invariant
            rest@ == all.skip(all.len() - rest@.len()),
            rest@.len() <= all.len(),
            out@.len() == all.len() - rest@.len(),
            forall|i: int|
                0 <= i < out@.len() ==> (#[trigger] out@[i]).title@ == title@ && out@[i].tag@
                    == spec_index_tag(tag@, all[i].0@) && (packs_deterministically(all[i].1)
                    ==> out@[i].payload@ == packed(all[i].1)),
        decreases rest@.len(),
    {
        let ghost k = all.len() - rest@.len();
        let (idx, obj) = rest.remove(0);
        proof {
            assert((idx, obj) == all[k]);
            assert(rest@ =~= all.skip(k + 1));
        }
        let t = index_tag(tag, &idx);
        out.push(snapshot(title.clone(), t, obj));
    }
    out
}

} // verus!
