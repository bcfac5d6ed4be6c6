//! The order of texts, and maps listed in it.
use vstd::prelude::*;

use crate::text::chars_of;

verus! {

/// The one text comes before the other: by the first character in which they
/// differ, or as its beginning.
pub open spec fn precedes(a: Seq<char>, b: Seq<char>) -> bool
    decreases a.len(),
{
    if b.len() == 0 {
        false
    } else if a.len() == 0 {
        true
    } else if a[0] == b[0] {
        precedes(a.skip(1), b.skip(1))
    } else {
        a[0] < b[0]
    }
}

/// Of two different texts exactly one comes before the other; no text comes
/// before itself.
pub proof fn order_is_total(a: Seq<char>, b: Seq<char>)
    ensures
        a == b ==> !precedes(a, b),
        a != b ==> precedes(a, b) != precedes(b, a),
    decreases a.len(),
{
    if a.len() > 0 && b.len() > 0 {
        if a[0] == b[0] {
            order_is_total(a.skip(1), b.skip(1));
            if a.skip(1) == b.skip(1) {
                assert(a =~= seq![a[0]] + a.skip(1));
                assert(b =~= seq![b[0]] + b.skip(1));
            }
        }
    } else if a.len() == 0 && b.len() == 0 {
        assert(a =~= b);
    }
}

/// What comes before a text comes before all that the text comes before.
pub proof fn order_is_transitive(a: Seq<char>, b: Seq<char>, c: Seq<char>)
    requires
        precedes(a, b),
        precedes(b, c),
    ensures
        precedes(a, c),
    decreases a.len(),
{
    if a.len() > 0 && a[0] == b[0] && b[0] == c[0] {
        order_is_transitive(a.skip(1), b.skip(1), c.skip(1));
    }
}

/// Two texts that begin alike are in the order of the first characters in which
/// they differ, whatever follows those; a text comes before all that it is the
/// beginning of.
pub proof fn first_difference_decides(
    head: Seq<char>,
    x: char,
    y: char,
    a: Seq<char>,
    b: Seq<char>,
)
    ensures
        x as int > y as int ==> !precedes(head + seq![x] + a, head + seq![y] + b),
        y as int > x as int ==> precedes(head + seq![x] + a, head + seq![y] + b),
        precedes(head, head + a) == (a.len() > 0),
        !precedes(head + a, head),
    decreases head.len(),
{
    let (s, t) = (head + seq![x] + a, head + seq![y] + b);
    if head.len() == 0 {
        assert(s[0] == x && t[0] == y);
        assert(head + a =~= a);
    } else {
        let rest = head.skip(1);
        first_difference_decides(rest, x, y, a, b);
        assert(s.skip(1) =~= rest + seq![x] + a);
        assert(t.skip(1) =~= rest + seq![y] + b);
        assert((head + a).skip(1) =~= rest + a);
        assert(s[0] == head[0] && t[0] == head[0] && (head + a)[0] == head[0]);
    }
}

/// Whether the one text comes before the other.
pub fn comes_before(a: &str, b: &str) -> (r: bool)
    ensures
        r == precedes(a@, b@),
{
    let left = chars_of(a);
    let right = chars_of(b);
    let mut i: usize = 0;
    assert(a@.skip(0) =~= a@ && b@.skip(0) =~= b@);
    while i < left.len() && i < right.len()
        invariant
            i <= left@.len(),
            i <= right@.len(),
            left@ == a@,
            right@ == b@,
            precedes(a@, b@) == precedes(a@.skip(i as int), b@.skip(i as int)),
        decreases left@.len() - i,
    {
        let x: char = left[i];
        let y: char = right[i];
        proof {
            assert(a@.skip(i as int).skip(1) =~= a@.skip(i + 1));
            assert(b@.skip(i as int).skip(1) =~= b@.skip(i + 1));
        }
        if x != y {
            return x < y;
        }
        i += 1;
    }
    i < right.len()
}

/// The list holds the entries of the map, in the order of their keys.
pub open spec fn lists_in_order<V>(list: Seq<(Seq<char>, V)>, m: Map<Seq<char>, V>) -> bool {
    &&& forall|i: int, j: int|
        0 <= i < j < list.len() ==> precedes((#[trigger] list[i]).0, (#[trigger] list[j]).0)
    &&& forall|i: int|
        0 <= i < list.len() ==> m.contains_key((#[trigger] list[i]).0) && m[list[i].0] == list[i].1
    &&& forall|k: Seq<char>| #[trigger] m.contains_key(k) ==> holds_key(list, k)
}

/// The list holds an entry under the key.
pub open spec fn holds_key<V>(list: Seq<(Seq<char>, V)>, k: Seq<char>) -> bool {
    exists|i: int| 0 <= i < list.len() && (#[trigger] list[i]).0 == k
}

/// The entries of a map, in the order of their keys.
pub open spec fn in_order<V>(m: Map<Seq<char>, V>) -> Seq<(Seq<char>, V)> {
    choose|list: Seq<(Seq<char>, V)>| lists_in_order(list, m)
}

proof fn lemma_same_entry<V>(
    a: Seq<(Seq<char>, V)>,
    b: Seq<(Seq<char>, V)>,
    m: Map<Seq<char>, V>,
    i: int,
)
    requires
        lists_in_order(a, m),
        lists_in_order(b, m),
        0 <= i < a.len(),
    ensures
        i < b.len(),
        a[i] == b[i],
    decreases i,
{
    assert forall|j: int| 0 <= j < i implies j < b.len() && #[trigger] a[j] == b[j] by {
        lemma_same_entry(a, b, m, j);
    }
    assert(m.contains_key(a[i].0));
    assert(holds_key(b, a[i].0));
    let at = choose|j: int| 0 <= j < b.len() && (#[trigger] b[j]).0 == a[i].0;
    if at < i {
        assert(a[at] == b[at]);
        order_is_total(a[at].0, a[i].0);
    }
    if i < at {
        assert(m.contains_key(b[i].0));
        assert(holds_key(a, b[i].0));
        let other = choose|j: int| 0 <= j < a.len() && (#[trigger] a[j]).0 == b[i].0;
        if other < i {
            assert(a[other] == b[other]);
            order_is_total(b[other].0, b[i].0);
        } else {
            assert(precedes(b[i].0, b[at].0));
            order_is_total(a[i].0, a[other].0);
            if i < other {
                assert(precedes(a[i].0, a[other].0));
            }
        }
    }
}

/// There is one list of a map's entries in the order of their keys.
pub proof fn order_is_unique<V>(list: Seq<(Seq<char>, V)>, m: Map<Seq<char>, V>)
    requires
        lists_in_order(list, m),
    ensures
        in_order(m) == list,
{
    let other = in_order(m);
    assert forall|i: int| 0 <= i < list.len() implies i < other.len() && #[trigger] list[i]
        == other[i] by {
        lemma_same_entry(list, other, m, i);
    }
    if other.len() > list.len() {
        lemma_same_entry(other, list, m, list.len() as int);
    }
    if list.len() > other.len() {
        lemma_same_entry(list, other, m, other.len() as int);
    }
    assert(other =~= list);
}

/// An entry that is put in before the first that it comes before keeps the
/// order.
pub proof fn insertion_keeps_order<V>(
    list: Seq<(Seq<char>, V)>,
    m: Map<Seq<char>, V>,
    k: Seq<char>,
    v: V,
    at: int,
)
    requires
        lists_in_order(list, m),
        !m.contains_key(k),
        0 <= at <= list.len(),
        forall|j: int| 0 <= j < at ==> !precedes(k, (#[trigger] list[j]).0),
        at < list.len() ==> precedes(k, list[at].0),
    ensures
        lists_in_order(list.insert(at, (k, v)), m.insert(k, v)),
{
    let longer = list.insert(at, (k, v));
    let more = m.insert(k, v);
    assert forall|j: int| 0 <= j < list.len() implies if j < at {
        precedes((#[trigger] list[j]).0, k)
    } else {
        precedes(k, list[j].0)
    } by {
        assert(m.contains_key(list[j].0));
        order_is_total(k, list[j].0);
        if at < j {
            order_is_transitive(k, list[at].0, list[j].0);
        }
    }
    assert forall|i: int| 0 <= i < longer.len() implies #[trigger] longer[i] == if i < at {
        list[i]
    } else if i == at {
        (k, v)
    } else {
        list[i - 1]
    } by {}
    assert forall|i: int| 0 <= i < longer.len() implies more.contains_key(
        (#[trigger] longer[i]).0,
    ) && more[longer[i].0] == longer[i].1 by {
        if i < at {
            assert(m.contains_key(list[i].0));
        } else if i > at {
            assert(m.contains_key(list[i - 1].0));
        }
    }
    assert forall|key: Seq<char>| #[trigger] more.contains_key(key) implies holds_key(
        longer,
        key,
    ) by {
        if key == k {
            assert(longer[at].0 == key);
        } else {
            assert(m.contains_key(key));
            let i = choose|i: int| 0 <= i < list.len() && (#[trigger] list[i]).0 == key;
            if i < at {
                assert(longer[i].0 == key);
            } else {
                assert(longer[i + 1].0 == key);
            }
        }
    }
}

proof fn lemma_place<V>(list: Seq<(Seq<char>, V)>, k: Seq<char>) -> (at: int)
    ensures
        0 <= at <= list.len(),
        forall|j: int| 0 <= j < at ==> !precedes(k, (#[trigger] list[j]).0),
        at < list.len() ==> precedes(k, list[at].0),
    decreases list.len(),
{
    if list.len() == 0 || precedes(k, list[0].0) {
        0
    } else {
        let rest = list.skip(1);
        let at = lemma_place(rest, k);
        assert forall|j: int| 0 <= j < at + 1 implies !precedes(k, (#[trigger] list[j]).0) by {
            if j > 0 {
                assert(rest[j - 1] == list[j]);
            }
        }
        at + 1
    }
}

/// The entries of every finite map can be listed in the order of their keys.
pub proof fn order_exists<V>(m: Map<Seq<char>, V>)
    requires
        m.dom().finite(),
    ensures
        lists_in_order(in_order(m), m),
    decreases m.dom().len(),
{
    if m.dom().len() == 0 {
        let none = Seq::<(Seq<char>, V)>::empty();
        assert(m.dom() =~= Set::empty());
        assert forall|k: Seq<char>| #[trigger] m.contains_key(k) implies holds_key(none, k) by {
            assert(m.dom().contains(k));
        }
        assert(lists_in_order(none, m));
    } else {
        let k = m.dom().choose();
        let rest = m.remove(k);
        order_exists(rest);
        let at = lemma_place(in_order(rest), k);
        insertion_keeps_order(in_order(rest), rest, k, m[k], at);
        assert(rest.insert(k, m[k]) =~= m);
        assert(lists_in_order(in_order(rest).insert(at, (k, m[k])), m));
    }
}

/// No two pairs have the same key.
pub open spec fn distinct(pairs: Seq<(Seq<char>, Seq<char>)>) -> bool {
    forall|i: int, j: int|
        0 <= i < j < pairs.len() ==> (#[trigger] pairs[i]).0 != (#[trigger] pairs[j]).0
}

} // verus!
