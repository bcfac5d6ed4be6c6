//! Values that cross the boundary between a script engine and its host.
use vstd::prelude::*;

use crate::string_map::StringMap;
use crate::text::{cat3, same};

verus! {

/// A script value: data only. What a script holds beyond data, such as a
/// function, crosses as [`ScriptValue::Null`]. Two values are equal, by `==`,
/// where they hold the same: the order of entries does not count, numbers are
/// equal as double-precision numbers are (zero with either sign is one number,
/// and what is no number equals nothing), and values of different kinds differ.
#[derive(Debug)]
#[non_exhaustive]
pub enum ScriptValue {
    /// The absent value.
    Null,
    /// A truth value.
    Bool(bool),
    /// A signed integer.
    Int(i64),
    /// An unsigned integer.
    UInt(u64),
    /// A double-precision number, by its bits.
    Float(u64),
    /// A text.
    Text(String),
    /// Bytes.
    Bytes(Vec<u8>),
    /// A list of values.
    Array(Vec<ScriptValue>),
    /// Values under names; no name occurs twice.
    Entries(Vec<(String, ScriptValue)>),
}

impl Default for ScriptValue {
    fn default() -> (r: Self)
        ensures
            r == ScriptValue::Null,
    {
        ScriptValue::Null
    }
}

/// The bits that are set in the exponent of a double-precision number.
pub const EXPONENT_BITS: u64 = 0x7ff0_0000_0000_0000;

/// The bits are those of a number, neither infinite nor undefined.
pub open spec fn is_finite(bits: u64) -> bool {
    bits & EXPONENT_BITS != EXPONENT_BITS
}

/// Whether bits are those of a number, neither infinite nor undefined.
pub fn finite(bits: u64) -> (r: bool)
    ensures
        r == is_finite(bits),
{
    bits & EXPONENT_BITS != EXPONENT_BITS
}

/// What a script value says.
#[verifier::ext_equal]
pub enum ValueView {
    Null,
    Bool(bool),
    Int(i64),
    UInt(u64),
    Float(u64),
    Text(Seq<char>),
    Bytes(Seq<u8>),
    Array(Seq<ValueView>),
    Entries(Seq<(Seq<char>, ValueView)>),
}

/// What some values say, one by one.
pub open spec fn views(items: Seq<ScriptValue>) -> Seq<ValueView>
    decreases items,
{
    Seq::new(
        items.len(),
        |i: int|
            if 0 <= i < items.len() {
                value_view(items[i])
            } else {
                ValueView::Null
            },
    )
}

/// What some entries say, one by one.
pub open spec fn entry_views(entries: Seq<(String, ScriptValue)>) -> Seq<(Seq<char>, ValueView)>
    decreases entries,
{
    Seq::new(
        entries.len(),
        |i: int|
            if 0 <= i < entries.len() {
                (entries[i].0@, value_view(entries[i].1))
            } else {
                (Seq::empty(), ValueView::Null)
            },
    )
}

/// What a script value says.
pub open spec fn value_view(v: ScriptValue) -> ValueView
    decreases v,
{
    match v {
        ScriptValue::Null => ValueView::Null,
        ScriptValue::Bool(x) => ValueView::Bool(x),
        ScriptValue::Int(x) => ValueView::Int(x),
        ScriptValue::UInt(x) => ValueView::UInt(x),
        ScriptValue::Float(x) => ValueView::Float(x),
        ScriptValue::Text(x) => ValueView::Text(x@),
        ScriptValue::Bytes(x) => ValueView::Bytes(x@),
        ScriptValue::Array(x) => ValueView::Array(views(x@)),
        ScriptValue::Entries(x) => ValueView::Entries(entry_views(x@)),
    }
}

impl View for ScriptValue {
    type V = ValueView;

    open spec fn view(&self) -> ValueView {
        value_view(*self)
    }
}

/// What a value says is what it holds: a list says what its items say, one by
/// one and in their order, and entries say so under their own names.
pub proof fn value_says_what_it_holds(v: ScriptValue)
    ensures
        match v {
            ScriptValue::Null => v@ == ValueView::Null,
            ScriptValue::Bool(x) => v@ == ValueView::Bool(x),
            ScriptValue::Int(x) => v@ == ValueView::Int(x),
            ScriptValue::UInt(x) => v@ == ValueView::UInt(x),
            ScriptValue::Float(x) => v@ == ValueView::Float(x),
            ScriptValue::Text(x) => v@ == ValueView::Text(x@),
            ScriptValue::Bytes(x) => v@ == ValueView::Bytes(x@),
            ScriptValue::Array(x) => v@ matches ValueView::Array(l) && l.len() == x@.len()
                && forall|i: int| #![trigger l[i]] 0 <= i < x@.len() ==> l[i] == x@[i]@,
            ScriptValue::Entries(x) => v@ matches ValueView::Entries(l) && l.len() == x@.len()
                && forall|i: int|
                #![trigger l[i]]
                0 <= i < x@.len() ==> l[i].0 == x@[i].0@ && l[i].1 == x@[i].1@,
        },
{
}

/// No name occurs twice.
pub open spec fn names_once<T>(entries: Seq<(Seq<char>, T)>) -> bool {
    forall|a: int, b: int|
        0 <= a < b < entries.len() ==> (#[trigger] entries[a]).0 != (#[trigger] entries[b]).0
}

/// No name occurs twice, in the value or in what it holds.
pub open spec fn is_value(v: ValueView) -> bool
    decreases v,
{
    match v {
        ValueView::Array(x) => forall|i: int| 0 <= i < x.len() ==> is_value(#[trigger] x[i]),
        ValueView::Entries(x) => names_once(x) && forall|i: int|
            0 <= i < x.len() ==> is_value((#[trigger] x[i]).1),
        _ => true,
    }
}

/// The bits that are set in the fraction of a double-precision number.
pub const FRACTION_BITS: u64 = 0x000f_ffff_ffff_ffff;

/// All bits but the sign of a double-precision number.
pub const MAGNITUDE_BITS: u64 = 0x7fff_ffff_ffff_ffff;

/// The bits are those of what is no number.
pub open spec fn is_undefined(bits: u64) -> bool {
    !is_finite(bits) && bits & FRACTION_BITS != 0
}

/// Two double-precision numbers are equal.
pub open spec fn same_number(a: u64, b: u64) -> bool {
    &&& !is_undefined(a)
    &&& !is_undefined(b)
    &&& a == b || (a & MAGNITUDE_BITS == 0 && b & MAGNITUDE_BITS == 0)
}

/// Whether two double-precision numbers are equal.
pub fn equal_numbers(a: u64, b: u64) -> (r: bool)
    ensures
        r == same_number(a, b),
{
    if (!finite(a) && a & FRACTION_BITS != 0) || (!finite(b) && b & FRACTION_BITS != 0) {
        return false;
    }
    a == b || (a & MAGNITUDE_BITS == 0 && b & MAGNITUDE_BITS == 0)
}

/// Two values are equal. Entries are equal where there are as many of them and
/// each has an equal one under its name.
pub open spec fn same_value(a: ValueView, b: ValueView) -> bool
    decreases a,
{
    match (a, b) {
        (ValueView::Null, ValueView::Null) => true,
        (ValueView::Bool(x), ValueView::Bool(y)) => x == y,
        (ValueView::Int(x), ValueView::Int(y)) => x == y,
        (ValueView::UInt(x), ValueView::UInt(y)) => x == y,
        (ValueView::Float(x), ValueView::Float(y)) => same_number(x, y),
        (ValueView::Text(x), ValueView::Text(y)) => x == y,
        (ValueView::Bytes(x), ValueView::Bytes(y)) => x == y,
        (ValueView::Array(x), ValueView::Array(y)) => x.len() == y.len() && forall|i: int|
            0 <= i < x.len() ==> same_value(#[trigger] x[i], y[i]),
        (ValueView::Entries(x), ValueView::Entries(y)) => x.len() == y.len() && forall|i: int|
            0 <= i < x.len() ==> is_among(#[trigger] x[i], y),
        _ => false,
    }
}

/// There is an equal value under the name of the entry.
pub open spec fn is_among(entry: (Seq<char>, ValueView), y: Seq<(Seq<char>, ValueView)>) -> bool
    decreases entry,
{
    exists|j: int|
        0 <= j < y.len() && (#[trigger] y[j]).0 == entry.0 && same_value(entry.1, y[j].1)
}

/// No number in the value is undefined.
pub open spec fn is_defined(v: ValueView) -> bool
    decreases v,
{
    match v {
        ValueView::Float(x) => !is_undefined(x),
        ValueView::Array(x) => forall|i: int| 0 <= i < x.len() ==> is_defined(#[trigger] x[i]),
        ValueView::Entries(x) => forall|i: int|
            0 <= i < x.len() ==> is_defined((#[trigger] x[i]).1),
        _ => true,
    }
}

/// A value without undefined numbers equals itself.
pub proof fn value_equals_itself(v: ValueView)
    requires
        is_defined(v),
    ensures
        same_value(v, v),
    decreases v,
{
    match v {
        ValueView::Array(x) => {
            assert forall|i: int| 0 <= i < x.len() implies same_value(#[trigger] x[i], x[i]) by {
                value_equals_itself(x[i]);
            }
        },
        ValueView::Entries(x) => {
            assert forall|i: int| 0 <= i < x.len() implies is_among(#[trigger] x[i], x) by {
                value_equals_itself(x[i].1);
            }
        },
        _ => {},
    }
}

/// Entries without undefined numbers are equal in whatever order they stand.
pub proof fn order_of_entries_does_not_count(
    x: Seq<(Seq<char>, ValueView)>,
    y: Seq<(Seq<char>, ValueView)>,
)
    requires
        is_defined(ValueView::Entries(x)),
        x.len() == y.len(),
        forall|i: int| 0 <= i < x.len() ==> y.contains(#[trigger] x[i]),
    ensures
        same_value(ValueView::Entries(x), ValueView::Entries(y)),
{
    assert forall|i: int| 0 <= i < x.len() implies is_among(#[trigger] x[i], y) by {
        let j = y.index_of(x[i]);
        assert(y[j] == x[i]);
        assert(ValueView::Entries(x)->Entries_0[i] == x[i]);
        value_equals_itself(x[i].1);
    }
}

/// Values of different kinds differ, and of one kind they are equal exactly where
/// they hold the same. Lists are equal position by position, entries name by
/// name.
pub proof fn equal_values_hold_the_same(a: ValueView, b: ValueView)
    ensures
        match (a, b) {
            (ValueView::Null, ValueView::Null) => same_value(a, b),
            (ValueView::Bool(x), ValueView::Bool(y)) => same_value(a, b) <==> x == y,
            (ValueView::Int(x), ValueView::Int(y)) => same_value(a, b) <==> x == y,
            (ValueView::UInt(x), ValueView::UInt(y)) => same_value(a, b) <==> x == y,
            (ValueView::Float(x), ValueView::Float(y)) => same_value(a, b) <==> same_number(x, y),
            (ValueView::Text(x), ValueView::Text(y)) => same_value(a, b) <==> x == y,
            (ValueView::Bytes(x), ValueView::Bytes(y)) => same_value(a, b) <==> x == y,
            (ValueView::Array(x), ValueView::Array(y)) => {
                &&& same_value(a, b) ==> x.len() == y.len()
                &&& forall|i: int|
                    #![trigger x[i]]
                    same_value(a, b) && 0 <= i < x.len() ==> same_value(x[i], y[i])
                &&& x.len() == y.len() && (forall|i: int|
                    0 <= i < x.len() ==> same_value(#[trigger] x[i], y[i])) ==> same_value(a, b)
            },
            (ValueView::Entries(x), ValueView::Entries(y)) => {
                &&& same_value(a, b) ==> x.len() == y.len()
                &&& forall|i: int|
                    #![trigger x[i]]
                    same_value(a, b) && 0 <= i < x.len() ==> is_among(x[i], y)
                &&& x.len() == y.len() && (forall|i: int|
                    0 <= i < x.len() ==> is_among(#[trigger] x[i], y)) ==> same_value(a, b)
            },
            _ => !same_value(a, b),
        },
{
}

/// An entry is among others exactly where one of them has its name and an equal
/// value.
pub proof fn entry_is_found_by_name_and_value(
    entry: (Seq<char>, ValueView),
    y: Seq<(Seq<char>, ValueView)>,
)
    ensures
        is_among(entry, y) <==> exists|j: int|
            0 <= j < y.len() && (#[trigger] y[j]).0 == entry.0 && same_value(entry.1, y[j].1),
{
}

/// A number has an exponent with a bit that is not set; what has none is
/// infinite where its fraction is zero and undefined where it is not. Defined
/// numbers are equal where their bits are, or where both are zero with either
/// sign; an undefined one equals nothing, not even itself.
pub proof fn numbers_are_equal_as_numbers(a: u64, b: u64)
    ensures
        is_finite(a) <==> (a >> 52) & 0x7ff != 0x7ff,
        is_undefined(a) <==> (a >> 52) & 0x7ff == 0x7ff && a << 12 != 0,
        is_undefined(a) ==> !same_number(a, b) && !same_number(b, a) && !same_number(a, a),
        !is_undefined(a) && !is_undefined(b) ==> (same_number(a, b) <==> a == b || (a << 1 == 0 && b
            << 1 == 0)),
        same_number(a, b) == same_number(b, a),
{
    assert((a & 0x7ff0_0000_0000_0000 != 0x7ff0_0000_0000_0000) <==> ((a >> 52) & 0x7ff != 0x7ff))
        by (bit_vector);
    assert((a & 0x000f_ffff_ffff_ffff != 0) <==> (a << 12 != 0)) by (bit_vector);
    assert((a & 0x7fff_ffff_ffff_ffff == 0) <==> (a << 1 == 0)) by (bit_vector);
    assert((b & 0x7fff_ffff_ffff_ffff == 0) <==> (b << 1 == 0)) by (bit_vector);
}

fn equal_bytes(a: &Vec<u8>, b: &Vec<u8>) -> (r: bool)
    ensures
        r == (a@ == b@),
{
    if a.len() != b.len() {
        return false;
    }
    let mut i: usize = 0;
    while i < a.len()
        invariant
            i <= a@.len() == b@.len(),
            forall|j: int| 0 <= j < i ==> a@[j] == b@[j],
        decreases a@.len() - i,
    {
        if a[i] != b[i] {
            return false;
        }
        i += 1;
    }
    assert(a@ =~= b@);
    true
}

/// Whether two values are equal.
#[verifier::loop_isolation(false)]
pub fn equal_values(a: &ScriptValue, b: &ScriptValue) -> (r: bool)
    ensures
        r == same_value(a@, b@),
    decreases a,
{
    match (a, b) {
        (ScriptValue::Null, ScriptValue::Null) => true,
        (ScriptValue::Bool(x), ScriptValue::Bool(y)) => *x == *y,
        (ScriptValue::Int(x), ScriptValue::Int(y)) => *x == *y,
        (ScriptValue::UInt(x), ScriptValue::UInt(y)) => *x == *y,
        (ScriptValue::Float(x), ScriptValue::Float(y)) => equal_numbers(*x, *y),
        (ScriptValue::Text(x), ScriptValue::Text(y)) => same(x.as_str(), y.as_str()),
        (ScriptValue::Bytes(x), ScriptValue::Bytes(y)) => equal_bytes(x, y),
        (ScriptValue::Array(x), ScriptValue::Array(y)) => {
            let ghost (left, right) = (views(x@), views(y@));
            if x.len() != y.len() {
                return false;
            }
            let mut i: usize = 0;
            while i < x.len()
                invariant
                    i <= x@.len() == y@.len(),
                    forall|j: int| 0 <= j < i ==> same_value(#[trigger] left[j], right[j]),
                decreases x@.len() - i,
            {
                assert(decreases_to!(*a => a->Array_0));
                assert(decreases_to!(*x => x@));
                assert(decreases_to!(x@ => x@[i as int]));
                assert(left[i as int] == x@[i as int]@ && right[i as int] == y@[i as int]@);
                if !equal_values(&x[i], &y[i]) {
                    return false;
                }
                i += 1;
            }
            true
        },
        (ScriptValue::Entries(x), ScriptValue::Entries(y)) => {
            let ghost (left, right) = (entry_views(x@), entry_views(y@));
            if x.len() != y.len() {
                return false;
            }
            let mut i: usize = 0;
            while i < x.len()
                invariant
                    i <= x@.len() == y@.len(),
                    forall|k: int|
                        0 <= k < i ==> is_among(#[trigger] left[k], right),
                decreases x@.len() - i,
            {
                assert(decreases_to!(*a => a->Entries_0));
                assert(decreases_to!(*x => x@));
                assert(decreases_to!(x@ => x@[i as int]));
                assert(decreases_to!(x@[i as int] => x@[i as int].1));
                assert(left[i as int] == (x@[i as int].0@, x@[i as int].1@));
                let mut found: bool = false;
                let mut j: usize = 0;
                while j < y.len() && !found
                    invariant
                        i < x@.len() == y@.len(),
                        j <= y@.len(),
                        !found ==> forall|k: int|
                            0 <= k < j ==> !(left[i as int].0 == (#[trigger] right[k]).0
                                && same_value(left[i as int].1, right[k].1)),
                        found ==> is_among(left[i as int], right),
                    decreases y@.len() - j,
                {
                    assert(right[j as int] == (y@[j as int].0@, y@[j as int].1@));
                    if same(x[i].0.as_str(), y[j].0.as_str()) {
                        if equal_values(&x[i].1, &y[j].1) {
                            found = true;
                        }
                    }
                    j += 1;
                }
                if !found {
                    assert(!is_among(left[i as int], right));
                    return false;
                }
                i += 1;
            }
            true
        },
        _ => false,
    }
}

impl PartialEq for ScriptValue {
    fn eq(&self, other: &Self) -> (r: bool) {
        equal_values(self, other)
    }
}

impl vstd::std_specs::cmp::PartialEqSpecImpl for ScriptValue {
    open spec fn obeys_eq_spec() -> bool {
        true
    }

    open spec fn eq_spec(&self, other: &Self) -> bool {
        same_value(self@, other@)
    }
}

impl Clone for ScriptValue {
    fn clone(&self) -> (r: Self)
        ensures
            r@ == self@,
        decreases self,
    {
        match self {
            ScriptValue::Null => ScriptValue::Null,
            ScriptValue::Bool(v) => ScriptValue::Bool(*v),
            ScriptValue::Int(v) => ScriptValue::Int(*v),
            ScriptValue::UInt(v) => ScriptValue::UInt(*v),
            ScriptValue::Float(v) => ScriptValue::Float(*v),
            ScriptValue::Text(v) => ScriptValue::Text(v.clone()),
            ScriptValue::Bytes(v) => ScriptValue::Bytes(copy_bytes(v)),
            ScriptValue::Array(items) => {
                let mut out: Vec<ScriptValue> = Vec::new();
                let mut i: usize = 0;
                while i < items.len()
                    invariant
                        i <= items@.len(),
                        out@.len() == i,
                        *self == ScriptValue::Array(*items),
                        forall|j: int| 0 <= j < i ==> (#[trigger] out@[j])@ == items@[j]@,
                    decreases items@.len() - i,
                {
                    assert(decreases_to!(*self => self->Array_0));
                    assert(decreases_to!(*items => items@));
                    assert(decreases_to!(items@ => items@[i as int]));
                    let item = items[i].clone();
                    out.push(item);
                    i += 1;
                }
                assert(views(out@) =~= views(items@));
                ScriptValue::Array(out)
            },
            ScriptValue::Entries(entries) => {
                let mut out: Vec<(String, ScriptValue)> = Vec::new();
                let mut i: usize = 0;
                while i < entries.len()
                    invariant
                        i <= entries@.len(),
                        out@.len() == i,
                        *self == ScriptValue::Entries(*entries),
                        forall|j: int|
                            0 <= j < i ==> (#[trigger] out@[j]).0@ == entries@[j].0@ && out@[j].1@
                                == entries@[j].1@,
                    decreases entries@.len() - i,
                {
                    assert(decreases_to!(*self => self->Entries_0));
                    assert(decreases_to!(*entries => entries@));
                    assert(decreases_to!(entries@ => entries@[i as int]));
                    assert(decreases_to!(entries@[i as int] => entries@[i as int].1));
                    let item = entries[i].1.clone();
                    out.push((entries[i].0.clone(), item));
                    i += 1;
                }
                assert(entry_views(out@) =~= entry_views(entries@));
                ScriptValue::Entries(out)
            },
        }
    }
}

/// What the values under the keys of a map say.
pub open spec fn value_map(m: Map<Seq<char>, ScriptValue>) -> Map<Seq<char>, ValueView> {
    Map::new(|k: Seq<char>| m.contains_key(k), |k: Seq<char>| m[k]@)
}

/// The values in a map stand under the keys of the map, each under its own.
pub proof fn values_stay_under_their_keys(m: Map<Seq<char>, ScriptValue>, key: Seq<char>)
    ensures
        value_map(m).contains_key(key) == m.contains_key(key),
        m.contains_key(key) ==> value_map(m)[key] == m[key]@,
{
}

/// The global that an entry of a module becomes.
pub open spec fn module_global(module: Seq<char>, key: Seq<char>) -> Seq<char> {
    module + "_"@ + key
}

/// Globals with the entries of a module among them, one after the other.
pub open spec fn with_module(
    globals: Map<Seq<char>, ValueView>,
    module: Seq<char>,
    entries: Seq<(Seq<char>, ValueView)>,
) -> Map<Seq<char>, ValueView>
    decreases entries.len(),
{
    if entries.len() == 0 {
        globals
    } else {
        with_module(globals, module, entries.drop_last()).insert(
            module_global(module, entries.last().0),
            entries.last().1,
        )
    }
}

/// Every entry of a module is a global, under the name of the module and its
/// own; a global under a name that no entry takes stays as it was.
pub proof fn module_entries_become_globals(
    globals: Map<Seq<char>, ValueView>,
    module: Seq<char>,
    entries: Seq<(Seq<char>, ValueView)>,
    i: int,
    other: Seq<char>,
)
    requires
        0 <= i < entries.len(),
        names_once(entries),
    ensures
        with_module(globals, module, entries).contains_key(module_global(module, entries[i].0)),
        with_module(globals, module, entries)[module_global(module, entries[i].0)] == entries[i].1,
        module_global(module, entries[i].0) == module + "_"@ + entries[i].0,
        (forall|a: int|
            0 <= a < entries.len() ==> other != module_global(module, (#[trigger] entries[a]).0))
            ==> with_module(globals, module, entries).contains_key(other) == globals.contains_key(
            other,
        ) && with_module(globals, module, entries)[other] == globals[other],
    decreases entries.len(),
{
    let n = entries.len() - 1;
    let head = entries.drop_last();
    assert forall|a: int, b: int| 0 <= a < b < head.len() implies (#[trigger] head[a]).0 != (
    #[trigger] head[b]).0 by {
        assert(head[a] == entries[a] && head[b] == entries[b]);
    }
    if i < n {
        module_entries_become_globals(globals, module, head, i, other);
        let mine = module_global(module, entries[i].0);
        let last = module_global(module, entries[n].0);
        if mine == last {
            let p = module + "_"@;
            assert(mine.skip(p.len() as int) =~= entries[i].0);
            assert(last.skip(p.len() as int) =~= entries[n].0);
            assert(entries[i].0 == entries[n].0);
        }
    } else if n > 0 {
        module_entries_become_globals(globals, module, head, 0, other);
    } else {
        assert(with_module(globals, module, head) == globals);
    }
    if forall|a: int|
        0 <= a < entries.len() ==> other != module_global(module, (#[trigger] entries[a]).0) {
        assert(other != module_global(module, entries[n].0));
        assert forall|a: int| 0 <= a < head.len() implies other != module_global(
            module,
            (#[trigger] head[a]).0,
        ) by {
            assert(head[a] == entries[a]);
        }
    }
}

/// Puts the entries of a module among the globals, each under the name of the
/// module and its own.
pub fn flatten_module(
    globals: &mut StringMap<ScriptValue>,
    module: &str,
    entries: &Vec<(String, ScriptValue)>,
)
    ensures
        value_map(final(globals)@) == with_module(
            value_map(old(globals)@),
            module@,
            entry_views(entries@),
        ),
{
    let ghost before = value_map(globals@);
    let ghost all = entry_views(entries@);
    let mut i: usize = 0;
    assert(all.take(0) =~= Seq::empty());
    while i < entries.len()
        invariant
            i <= entries@.len(),
            all == entry_views(entries@),
            value_map(globals@) == with_module(before, module@, all.take(i as int)),
        decreases entries@.len() - i,
    {
        let name = cat3(module, "_", entries[i].0.as_str());
        let value = entries[i].1.clone();
        let ghost old_map = value_map(globals@);
        globals.insert(name, value);
        proof {
            assert(value_map(globals@) =~= old_map.insert(name@, value@));
            assert(all.take(i + 1).drop_last() =~= all.take(i as int));
            assert(all.take(i + 1).last() == all[i as int]);
        }
        i += 1;
    }
    assert(all.take(i as int) =~= all);
}

/// Copies bytes.
pub fn copy_bytes(v: &Vec<u8>) -> (r: Vec<u8>)
    ensures
        r@ == v@,
{
    let mut r: Vec<u8> = Vec::new();
    let mut i: usize = 0;
    while i < v.len()
        invariant
            i <= v@.len(),
            r@ == v@.take(i as int),
        decreases v@.len() - i,
    {
        r.push(v[i]);
        i += 1;
        assert(r@ =~= v@.take(i as int));
    }
    assert(v@.take(i as int) =~= v@);
    r
}

} // verus!
