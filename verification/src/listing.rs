//! What is picked out of a list: some of its items, in their order.
use vstd::prelude::*;

verus! {

/// How many of the items before position `i` are picked.
pub open spec fn rank<A>(s: Seq<A>, keep: spec_fn(A) -> bool, i: int) -> int {
    s.take(i).filter(keep).len() as int
}

/// The result holds what each picked item stands for, once each and in order:
/// it is as long as there are picked items, and what a picked item stands for
/// is at the position that the picked items before it leave.
pub open spec fn picks<A, B>(
    r: Seq<B>,
    s: Seq<A>,
    keep: spec_fn(A) -> bool,
    value: spec_fn(A) -> B,
) -> bool {
    &&& r.len() == s.filter(keep).len()
    &&& forall|i: int|
        #![trigger s[i]]
        0 <= i < s.len() && keep(s[i]) ==> 0 <= rank(s, keep, i) < r.len() && r[rank(s, keep, i)]
            == value(s[i])
}

/// Nothing is picked out of an empty list.
pub proof fn nothing_is_picked<A, B>(
    r: Seq<B>,
    s: Seq<A>,
    keep: spec_fn(A) -> bool,
    value: spec_fn(A) -> B,
)
    requires
        s.len() == 0,
        r.len() == 0,
    ensures
        picks(r, s, keep, value),
{
    reveal(Seq::filter);
}

/// One item more adds what it stands for at the end, where it is picked.
pub proof fn picking_one_more<A, B>(
    r: Seq<B>,
    s: Seq<A>,
    keep: spec_fn(A) -> bool,
    value: spec_fn(A) -> B,
)
    requires
        s.len() > 0,
        picks(r, s.drop_last(), keep, value),
    ensures
        keep(s.last()) ==> picks(r.push(value(s.last())), s, keep, value),
        !keep(s.last()) ==> picks(r, s, keep, value),
{
    reveal(Seq::filter);
    let n = s.len() - 1;
    let head = s.drop_last();
    assert(s.take(n) =~= head);
    assert forall|i: int| 0 <= i < n implies rank(s, keep, i) == rank(head, keep, i) && head[i]
        == #[trigger] s[i] by {
        assert(head.take(i) =~= s.take(i));
    }
    assert(rank(s, keep, n) == r.len());
    let longer = if keep(s.last()) {
        r.push(value(s.last()))
    } else {
        r
    };
    assert forall|i: int|
        #![trigger s[i]]
        0 <= i < s.len() && keep(s[i]) implies 0 <= rank(s, keep, i) < longer.len()
        && longer[rank(s, keep, i)] == value(s[i]) by {
        if i < n {
            assert(keep(head[i]));
        }
    }
}

} // verus!
