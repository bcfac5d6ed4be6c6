//! The CEL engine.
use vstd::prelude::*;

use crate::script::engine::Capabilities;
use crate::script::error::ScriptError;
use crate::script::factory::{register_factory, FactoryRegistry};
use crate::script::lifecycle::Lifecycle;
use crate::script::value::{copy_bytes, flatten_module, ScriptValue, ValueView};
use crate::string_map::StringMap;
use crate::text::{cat, cat3};

verus! {

/// The name the engine is registered under.
pub const NAME: &'static str = "cel";

/// A key of a CEL map.
#[derive(Debug, PartialEq, Eq)]
pub enum CelKey {
    /// A string.
    Text(String),
    /// Anything else.
    Other,
}

/// A CEL value, as data.
#[derive(Debug, PartialEq)]
pub enum CelData {
    Bool(bool),
    Int(i64),
    UInt(u64),
    /// A double-precision number, by its bits.
    Float(u64),
    Text(String),
    Bytes(Vec<u8>),
    List(Vec<CelData>),
    Table(Vec<(CelKey, CelData)>),
    /// What holds no data, such as a function.
    Opaque,
}

/// What a value says. A key that is no string is none.
#[verifier::ext_equal]
pub enum CelView {
    Bool(bool),
    Int(i64),
    UInt(u64),
    Float(u64),
    Text(Seq<char>),
    Bytes(Seq<u8>),
    List(Seq<CelView>),
    Table(Seq<(Option<Seq<char>>, CelView)>),
    Opaque,
}

/// What a key says.
pub open spec fn key_view(k: CelKey) -> Option<Seq<char>> {
    match k {
        CelKey::Text(x) => Some(x@),
        CelKey::Other => None,
    }
}

/// What some values say, one by one.
pub open spec fn list_view(items: Seq<CelData>) -> Seq<CelView>
    decreases items,
{
    Seq::new(
        items.len(),
        |i: int|
            if 0 <= i < items.len() {
                cel_view(items[i])
            } else {
                CelView::Opaque
            },
    )
}

/// What the entries of a map say, one by one.
pub open spec fn table_view(entries: Seq<(CelKey, CelData)>) -> Seq<(Option<Seq<char>>, CelView)>
    decreases entries,
{
    Seq::new(
        entries.len(),
        |i: int|
            if 0 <= i < entries.len() {
                (key_view(entries[i].0), cel_view(entries[i].1))
            } else {
                (None, CelView::Opaque)
            },
    )
}

/// What a value says.
pub open spec fn cel_view(v: CelData) -> CelView
    decreases v,
{
    match v {
        CelData::Bool(x) => CelView::Bool(x),
        CelData::Int(x) => CelView::Int(x),
        CelData::UInt(x) => CelView::UInt(x),
        CelData::Float(x) => CelView::Float(x),
        CelData::Text(x) => CelView::Text(x@),
        CelData::Bytes(x) => CelView::Bytes(x@),
        CelData::List(x) => CelView::List(list_view(x@)),
        CelData::Table(x) => CelView::Table(table_view(x@)),
        CelData::Opaque => CelView::Opaque,
    }
}

impl View for CelData {
    type V = CelView;

    open spec fn view(&self) -> CelView {
        cel_view(*self)
    }
}

/// What a value says is what it holds: a list says what its items do and a map
/// what its entries do, one by one and in their order.
pub proof fn data_says_what_it_holds(v: CelData)
    ensures
        match v {
            CelData::Bool(x) => v@ == CelView::Bool(x),
            CelData::Int(x) => v@ == CelView::Int(x),
            CelData::UInt(x) => v@ == CelView::UInt(x),
            CelData::Float(x) => v@ == CelView::Float(x),
            CelData::Text(x) => v@ == CelView::Text(x@),
            CelData::Bytes(x) => v@ == CelView::Bytes(x@),
            CelData::Opaque => v@ == CelView::Opaque,
            CelData::List(x) => v@ matches CelView::List(l) && l.len() == x@.len()
                && forall|i: int| #![trigger l[i]] 0 <= i < x@.len() ==> l[i] == x@[i]@,
            CelData::Table(x) => v@ matches CelView::Table(l) && l.len() == x@.len()
                && forall|i: int|
                #![trigger l[i]]
                0 <= i < x@.len() ==> l[i].1 == x@[i].1@ && match x@[i].0 {
                    CelKey::Text(name) => l[i].0 == Some(name@),
                    CelKey::Other => l[i].0 is None,
                },
        },
{
}

/// A script value has a CEL form: there is no null in it.
pub open spec fn renderable(v: ValueView) -> bool
    decreases v,
{
    match v {
        ValueView::Null => false,
        ValueView::Array(x) => forall|i: int| 0 <= i < x.len() ==> renderable(#[trigger] x[i]),
        ValueView::Entries(x) => forall|i: int|
            0 <= i < x.len() ==> renderable((#[trigger] x[i]).1),
        _ => true,
    }
}

/// Some script values as CEL values, one by one.
pub open spec fn items_cel(items: Seq<ValueView>) -> Seq<CelView>
    decreases items,
{
    Seq::new(
        items.len(),
        |i: int|
            if 0 <= i < items.len() {
                value_cel(items[i])
            } else {
                CelView::Opaque
            },
    )
}

/// Some entries as the entries of a CEL map, one by one.
pub open spec fn entries_cel(entries: Seq<(Seq<char>, ValueView)>) -> Seq<
    (Option<Seq<char>>, CelView),
>
    decreases entries,
{
    Seq::new(
        entries.len(),
        |i: int|
            if 0 <= i < entries.len() {
                (Some(entries[i].0), value_cel(entries[i].1))
            } else {
                (None, CelView::Opaque)
            },
    )
}

/// A script value that has a CEL form, in that form.
pub open spec fn value_cel(v: ValueView) -> CelView
    decreases v,
{
    match v {
        ValueView::Null => CelView::Opaque,
        ValueView::Bool(x) => CelView::Bool(x),
        ValueView::Int(x) => CelView::Int(x),
        ValueView::UInt(x) => CelView::UInt(x),
        ValueView::Float(x) => CelView::Float(x),
        ValueView::Text(x) => CelView::Text(x),
        ValueView::Bytes(x) => CelView::Bytes(x),
        ValueView::Array(x) => CelView::List(items_cel(x)),
        ValueView::Entries(x) => CelView::Table(entries_cel(x)),
    }
}

/// Some CEL values as script values, one by one.
pub open spec fn items_value(items: Seq<CelView>) -> Seq<ValueView>
    decreases items,
{
    Seq::new(
        items.len(),
        |i: int|
            if 0 <= i < items.len() {
                cel_value(items[i])
            } else {
                ValueView::Null
            },
    )
}

/// The entries of a CEL map under strings; others are left out.
pub open spec fn table_value(entries: Seq<(Option<Seq<char>>, CelView)>) -> Seq<
    (Seq<char>, ValueView),
>
    decreases entries,
{
    if entries.len() == 0 {
        Seq::empty()
    } else {
        let head = entries.take(entries.len() - 1);
        let last = entries[entries.len() - 1];
        match last.0 {
            Some(key) => table_value(head).push((key, cel_value(last.1))),
            None => table_value(head),
        }
    }
}

/// A CEL value as a script value. What holds no data is null.
pub open spec fn cel_value(v: CelView) -> ValueView
    decreases v,
{
    match v {
        CelView::Bool(x) => ValueView::Bool(x),
        CelView::Int(x) => ValueView::Int(x),
        CelView::UInt(x) => ValueView::UInt(x),
        CelView::Float(x) => ValueView::Float(x),
        CelView::Text(x) => ValueView::Text(x),
        CelView::Bytes(x) => ValueView::Bytes(x),
        CelView::List(x) => ValueView::Array(items_value(x)),
        CelView::Table(x) => ValueView::Entries(table_value(x)),
        CelView::Opaque => ValueView::Null,
    }
}

/// `r` is the CEL form of `v`, or the failure of a value without one.
pub open spec fn rendered(v: ValueView, r: Result<CelData, ScriptError>) -> bool {
    if renderable(v) {
        r is Ok && r->Ok_0@ == value_cel(v)
    } else {
        crate::script::error::fails(r, "cel engine: null has no CEL rendering"@)
    }
}

/// Rendering succeeds exactly where the value has a CEL form, and gives it then.
pub proof fn only_null_is_not_rendered(v: ValueView, r: Result<CelData, ScriptError>)
    requires
        rendered(v, r),
    ensures
        r is Ok <==> renderable(v),
        r matches Ok(data) ==> data@ == value_cel(v),
        r matches Err(e) ==> e.says("cel engine: null has no CEL rendering"@),
{
}

/// A script value in its CEL form.
pub fn to_cel(value: &ScriptValue) -> (r: Result<CelData, ScriptError>)
    ensures
        rendered(value@, r),
    decreases value,
{
    match value {
        ScriptValue::Null => Err(
            ScriptError::Failed("cel engine: null has no CEL rendering".to_owned()),
        ),
        ScriptValue::Bool(v) => Ok(CelData::Bool(*v)),
        ScriptValue::Int(v) => Ok(CelData::Int(*v)),
        ScriptValue::UInt(v) => Ok(CelData::UInt(*v)),
        ScriptValue::Float(v) => Ok(CelData::Float(*v)),
        ScriptValue::Text(v) => Ok(CelData::Text(v.clone())),
        ScriptValue::Bytes(v) => Ok(CelData::Bytes(copy_bytes(v))),
        ScriptValue::Array(items) => {
            let mut out: Vec<CelData> = Vec::new();
            let mut i: usize = 0;
            while i < items.len()
                invariant
                    i <= items@.len(),
                    out@.len() == i,
                    *value == ScriptValue::Array(*items),
                    forall|j: int| 0 <= j < i ==> renderable((#[trigger] items@[j])@),
                    forall|j: int| 0 <= j < i ==> (#[trigger] out@[j])@ == value_cel(items@[j]@),
                decreases items@.len() - i,
            {
                assert(decreases_to!(*value => value->Array_0));
                assert(decreases_to!(*items => items@));
                assert(decreases_to!(items@ => items@[i as int]));
                match to_cel(&items[i]) {
                    Ok(item) => {
                        out.push(item);
                        assert(out@[i as int]@ == value_cel(items@[i as int]@));
                    },
                    Err(e) => {
                        assert(!renderable(value@->Array_0[i as int]));
                        return Err(e);
                    },
                }
                i += 1;
            }
            proof {
                let x = crate::script::value::views(items@);
                assert(list_view(out@) =~= items_cel(x));
                assert forall|j: int| 0 <= j < x.len() implies renderable(#[trigger] x[j]) by {
                    assert(renderable(items@[j]@));
                }
            }
            Ok(CelData::List(out))
        },
        ScriptValue::Entries(entries) => {
            let mut out: Vec<(CelKey, CelData)> = Vec::new();
            let mut i: usize = 0;
            while i < entries.len()
                invariant
                    i <= entries@.len(),
                    out@.len() == i,
                    *value == ScriptValue::Entries(*entries),
                    forall|j: int|
                        0 <= j < i ==> renderable(entries@[j].1@) && key_view(
                            (#[trigger] out@[j]).0,
                        ) == Some(entries@[j].0@) && out@[j].1@ == value_cel(entries@[j].1@),
                decreases entries@.len() - i,
            {
                assert(decreases_to!(*value => value->Entries_0));
                assert(decreases_to!(*entries => entries@));
                assert(decreases_to!(entries@ => entries@[i as int]));
                assert(decreases_to!(entries@[i as int] => entries@[i as int].1));
                match to_cel(&entries[i].1) {
                    Ok(item) => {
                        out.push((CelKey::Text(entries[i].0.clone()), item));
                    },
                    Err(e) => {
                        assert(!renderable(value@->Entries_0[i as int].1));
                        return Err(e);
                    },
                }
                i += 1;
            }
            proof {
                let x = crate::script::value::entry_views(entries@);
                assert(table_view(out@) =~= entries_cel(x));
                assert forall|j: int| 0 <= j < x.len() implies renderable((#[trigger] x[j]).1) by {
                    assert(out@[j].1@ == value_cel(entries@[j].1@));
                }
            }
            Ok(CelData::Table(out))
        },
    }
}

/// A CEL value as a script value.
pub fn from_cel(value: &CelData) -> (r: ScriptValue)
    ensures
        r@ == cel_value(value@),
    decreases value,
{
    match value {
        CelData::Bool(v) => ScriptValue::Bool(*v),
        CelData::Int(v) => ScriptValue::Int(*v),
        CelData::UInt(v) => ScriptValue::UInt(*v),
        CelData::Float(v) => ScriptValue::Float(*v),
        CelData::Text(v) => ScriptValue::Text(v.clone()),
        CelData::Bytes(v) => ScriptValue::Bytes(copy_bytes(v)),
        CelData::List(items) => {
            let mut out: Vec<ScriptValue> = Vec::new();
            let mut i: usize = 0;
            while i < items.len()
                invariant
                    i <= items@.len(),
                    out@.len() == i,
                    *value == CelData::List(*items),
                    forall|j: int| 0 <= j < i ==> (#[trigger] out@[j])@ == cel_value(items@[j]@),
                decreases items@.len() - i,
            {
                assert(decreases_to!(*value => value->List_0));
                assert(decreases_to!(*items => items@));
                assert(decreases_to!(items@ => items@[i as int]));
                let item = from_cel(&items[i]);
                out.push(item);
                i += 1;
            }
            assert(crate::script::value::views(out@) =~= items_value(list_view(items@)));
            ScriptValue::Array(out)
        },
        CelData::Table(entries) => {
            let mut out: Vec<(String, ScriptValue)> = Vec::new();
            let mut i: usize = 0;
            assert(table_view(entries@).take(0) =~= Seq::empty());
            assert(crate::script::value::entry_views(out@) =~= Seq::empty());
            while i < entries.len()
                invariant
                    i <= entries@.len(),
                    *value == CelData::Table(*entries),
                    crate::script::value::entry_views(out@) == table_value(
                        table_view(entries@).take(i as int),
                    ),
                decreases entries@.len() - i,
            {
                assert(decreases_to!(*value => value->Table_0));
                assert(decreases_to!(*entries => entries@));
                assert(decreases_to!(entries@ => entries@[i as int]));
                assert(decreases_to!(entries@[i as int] => entries@[i as int].1));
                let ghost all = table_view(entries@);
                let ghost before = out@;
                proof {
                    assert(all.take(i + 1).take(i as int) =~= all.take(i as int));
                    assert(all.take(i + 1)[i as int] == all[i as int]);
                }
                if let CelKey::Text(name) = &entries[i].0 {
                    let item = from_cel(&entries[i].1);
                    out.push((name.clone(), item));
                    assert(crate::script::value::entry_views(out@)
                        =~= crate::script::value::entry_views(before).push((name@, item@)));
                }
                i += 1;
            }
            assert(table_view(entries@).take(i as int) =~= table_view(entries@));
            ScriptValue::Entries(out)
        },
        CelData::Opaque => ScriptValue::Null,
    }
}

proof fn lemma_table_reads_back(entries: Seq<(Seq<char>, ValueView)>)
    requires
        forall|i: int|
            0 <= i < entries.len() ==> cel_value(value_cel((#[trigger] entries[i]).1))
                == entries[i].1,
    ensures
        table_value(entries_cel(entries)) == entries,
    decreases entries.len(),
{
    let all = entries_cel(entries);
    if entries.len() == 0 {
        assert(table_value(all) =~= entries);
    } else {
        let n = entries.len() - 1;
        let head = entries.take(n);
        assert(all.take(n) =~= entries_cel(head));
        assert forall|i: int| 0 <= i < head.len() implies cel_value(
            value_cel((#[trigger] head[i]).1),
        ) == head[i].1 by {
            assert(head[i] == entries[i]);
        }
        lemma_table_reads_back(head);
        assert(all[n] == (Some(entries[n].0), value_cel(entries[n].1)));
        assert(table_value(all) =~= head.push(entries[n]));
        assert(head.push(entries[n]) =~= entries);
    }
}

/// A value that has a CEL form comes back from it as it went in.
pub proof fn value_reads_back(v: ValueView)
    requires
        renderable(v),
    ensures
        cel_value(value_cel(v)) == v,
    decreases v,
{
    match v {
        ValueView::Array(x) => {
            assert forall|i: int| 0 <= i < x.len() implies cel_value(value_cel(#[trigger] x[i]))
                == x[i] by {
                value_reads_back(x[i]);
            }
            assert(items_value(items_cel(x)) =~= x);
        },
        ValueView::Entries(x) => {
            assert forall|i: int| 0 <= i < x.len() implies cel_value(
                value_cel((#[trigger] x[i]).1),
            ) == x[i].1 by {
                value_reads_back(x[i].1);
            }
            lemma_table_reads_back(x);
        },
        _ => {},
    }
}

/// The variables that expressions see: the globals that have a CEL form.
pub open spec fn variables(names: Seq<Seq<char>>, globals: Map<Seq<char>, ValueView>) -> Seq<
    (Seq<char>, CelView),
>
    decreases names.len(),
{
    if names.len() == 0 {
        Seq::empty()
    } else {
        let head = variables(names.drop_last(), globals);
        let name = names.last();
        if renderable(globals[name]) {
            head.push((name, value_cel(globals[name])))
        } else {
            head
        }
    }
}

/// Every global that has a CEL form is a variable, once, under its own name and
/// in the order of the names; one without is none.
pub proof fn each_renderable_global_is_a_variable(
    names: Seq<Seq<char>>,
    globals: Map<Seq<char>, ValueView>,
)
    ensures
        crate::listing::picks(
            variables(names, globals),
            names,
            |name: Seq<char>| renderable(globals[name]),
            |name: Seq<char>| (name, value_cel(globals[name])),
        ),
    decreases names.len(),
{
    let seen = |name: Seq<char>| renderable(globals[name]);
    let variable = |name: Seq<char>| (name, value_cel(globals[name]));
    if names.len() == 0 {
        crate::listing::nothing_is_picked(variables(names, globals), names, seen, variable);
    } else {
        let head = names.drop_last();
        each_renderable_global_is_a_variable(head, globals);
        crate::listing::picking_one_more(variables(head, globals), names, seen, variable);
    }
}

/// A value crosses as the CEL value of its kind. A list keeps its length and its
/// order, and entries keep their names too. Null has no CEL form, nor has a value
/// that holds one without; every other value has one.
pub proof fn cel_keeps_places_and_names(v: ValueView)
    ensures
        match v {
            ValueView::Null => !renderable(v),
            ValueView::Bool(x) => renderable(v) && value_cel(v) == CelView::Bool(x),
            ValueView::Int(x) => renderable(v) && value_cel(v) == CelView::Int(x),
            ValueView::UInt(x) => renderable(v) && value_cel(v) == CelView::UInt(x),
            ValueView::Float(x) => renderable(v) && value_cel(v) == CelView::Float(x),
            ValueView::Text(x) => renderable(v) && value_cel(v) == CelView::Text(x),
            ValueView::Bytes(x) => renderable(v) && value_cel(v) == CelView::Bytes(x),
            ValueView::Array(x) => {
                &&& value_cel(v) matches CelView::List(l) && l.len() == x.len() && forall|i: int|
                    #![trigger l[i]]
                    0 <= i < x.len() ==> l[i] == value_cel(x[i])
                &&& renderable(v) <==> forall|i: int|
                    0 <= i < x.len() ==> renderable(#[trigger] x[i])
            },
            ValueView::Entries(x) => {
                &&& value_cel(v) matches CelView::Table(l) && l.len() == x.len() && forall|i: int|
                    #![trigger l[i]]
                    0 <= i < x.len() ==> l[i].0 == Some(x[i].0) && l[i].1 == value_cel(x[i].1)
                &&& renderable(v) <==> forall|i: int|
                    0 <= i < x.len() ==> renderable((#[trigger] x[i]).1)
            },
        },
{
}

proof fn lemma_table_picks(x: Seq<(Option<Seq<char>>, CelView)>)
    ensures
        crate::listing::picks(
            table_value(x),
            x,
            |e: (Option<Seq<char>>, CelView)| e.0 is Some,
            |e: (Option<Seq<char>>, CelView)| (e.0->0, cel_value(e.1)),
        ),
    decreases x.len(),
{
    let named = |e: (Option<Seq<char>>, CelView)| e.0 is Some;
    let entry = |e: (Option<Seq<char>>, CelView)| (e.0->0, cel_value(e.1));
    if x.len() == 0 {
        crate::listing::nothing_is_picked(table_value(x), x, named, entry);
    } else {
        assert(x.take(x.len() - 1) =~= x.drop_last());
        lemma_table_picks(x.drop_last());
        crate::listing::picking_one_more(table_value(x.drop_last()), x, named, entry);
    }
}

/// What an expression gives is read by its kind: a list keeps its length and its
/// order, the entries of a map under strings are read once each and in their
/// order, those under other keys are left out, and what holds no data is null.
pub proof fn results_are_read_by_kind(v: CelView)
    ensures
        match v {
            CelView::Bool(x) => cel_value(v) == ValueView::Bool(x),
            CelView::Int(x) => cel_value(v) == ValueView::Int(x),
            CelView::UInt(x) => cel_value(v) == ValueView::UInt(x),
            CelView::Float(x) => cel_value(v) == ValueView::Float(x),
            CelView::Text(x) => cel_value(v) == ValueView::Text(x),
            CelView::Bytes(x) => cel_value(v) == ValueView::Bytes(x),
            CelView::Opaque => cel_value(v) == ValueView::Null,
            CelView::List(x) => cel_value(v) matches ValueView::Array(l) && l.len() == x.len()
                && forall|i: int|
                #![trigger l[i]]
                0 <= i < x.len() ==> l[i] == cel_value(x[i]),
            CelView::Table(x) => cel_value(v) matches ValueView::Entries(l)
                && crate::listing::picks(
                l,
                x,
                |e: (Option<Seq<char>>, CelView)| e.0 is Some,
                |e: (Option<Seq<char>>, CelView)| (e.0->0, cel_value(e.1)),
            ),
        },
{
    if let CelView::Table(x) = v {
        lemma_table_picks(x);
    }
}

/// What named values say, one by one.
pub open spec fn bindings(vars: Seq<(String, CelData)>) -> Seq<(Seq<char>, CelView)> {
    Seq::new(vars.len(), |i: int| (vars[i].0@, vars[i].1@))
}

/// What named values say is what each of them does, one by one and in their
/// order.
pub proof fn bindings_say_what_they_hold(vars: Seq<(String, CelData)>)
    ensures
        bindings(vars).len() == vars.len(),
        forall|i: int|
            #![trigger vars[i]]
            0 <= i < vars.len() ==> bindings(vars)[i] == (vars[i].0@, vars[i].1@),
{
}

/// No text is a key twice, in the value or in what it holds.
pub open spec fn is_cel(v: CelView) -> bool
    decreases v,
{
    match v {
        CelView::List(x) => forall|i: int| 0 <= i < x.len() ==> is_cel(#[trigger] x[i]),
        CelView::Table(x) => keys_once(x) && forall|i: int|
            0 <= i < x.len() ==> is_cel((#[trigger] x[i]).1),
        _ => true,
    }
}

/// No text is a key twice.
pub open spec fn keys_once(entries: Seq<(Option<Seq<char>>, CelView)>) -> bool {
    forall|a: int, b: int|
        0 <= a < b < entries.len() && entries[a].0 is Some ==> (#[trigger] entries[a]).0 != (
        #[trigger] entries[b]).0
}

/// A value in which no name occurs twice becomes tables in which no text is a
/// key twice.
pub proof fn tables_keep_names_apart(v: ValueView)
    requires
        crate::script::value::is_value(v),
    ensures
        is_cel(value_cel(v)),
    decreases v,
{
    match v {
        ValueView::Array(x) => {
            let items = items_cel(x);
            assert forall|i: int| 0 <= i < items.len() implies is_cel(#[trigger] items[i]) by {
                tables_keep_names_apart(x[i]);
            }
        },
        ValueView::Entries(x) => {
            let entries = entries_cel(x);
            assert forall|i: int| 0 <= i < entries.len() implies is_cel(
                (#[trigger] entries[i]).1,
            ) by {
                tables_keep_names_apart(x[i].1);
            }
            assert forall|a: int, b: int| 0 <= a < b < entries.len() implies (
            #[trigger] entries[a]).0 != (#[trigger] entries[b]).0 by {
                assert(x[a].0 != x[b].0);
            }
        },
        _ => {},
    }
}

/// An entry of a table's value comes from an entry of the table.
spec fn comes_from_any(entry: (Seq<char>, ValueView), entries: Seq<(Option<Seq<char>>, CelView)>) -> bool {
    exists|i: int| comes_from(entry, entries, i)
}

/// An entry of a table's value comes from this entry of the table.
spec fn comes_from(
    entry: (Seq<char>, ValueView),
    entries: Seq<(Option<Seq<char>>, CelView)>,
    i: int,
) -> bool {
    &&& 0 <= i < entries.len()
    &&& entries[i].0 == Some(entry.0)
    &&& entry.1 == cel_value(entries[i].1)
}

proof fn lemma_table_names(entries: Seq<(Option<Seq<char>>, CelView)>)
    requires
        keys_once(entries),
    ensures
        crate::script::value::names_once(table_value(entries)),
        forall|i: int|
            0 <= i < table_value(entries).len() ==> comes_from_any(
                #[trigger] table_value(entries)[i],
                entries,
            ),
    decreases entries.len(),
{
    let all = table_value(entries);
    if entries.len() > 0 {
        let n = entries.len() - 1;
        let head = entries.take(n);
        let some = table_value(head);
        assert forall|a: int, b: int|
            0 <= a < b < head.len() && head[a].0 is Some implies (#[trigger] head[a]).0 != (
        #[trigger] head[b]).0 by {
            assert(head[a] == entries[a] && head[b] == entries[b]);
        }
        lemma_table_names(head);
        assert forall|i: int| 0 <= i < all.len() implies comes_from_any(
            #[trigger] all[i],
            entries,
        ) by {
            if i < some.len() {
                assert(all[i] == some[i]);
                assert(comes_from_any(some[i], head));
                let j = choose|j: int| comes_from(some[i], head, j);
                assert(head[j] == entries[j]);
                assert(comes_from(all[i], entries, j));
            } else {
                assert(comes_from(all[i], entries, n));
            }
        }
        if entries[n].0 is Some {
            assert forall|a: int, b: int| 0 <= a < b < all.len() implies (#[trigger] all[a]).0 != (
            #[trigger] all[b]).0 by {
                if b < some.len() {
                    assert(all[a] == some[a] && all[b] == some[b]);
                } else {
                    assert(comes_from_any(some[a], head));
                    let j = choose|j: int| comes_from(some[a], head, j);
                    assert(all[a] == some[a]);
                    assert(head[j] == entries[j]);
                    assert(entries[j].0 != entries[n].0);
                }
            }
        }
    }
}

/// Tables in which no text is a key twice come back as a value in which no name
/// occurs twice.
pub proof fn values_keep_keys_apart(v: CelView)
    requires
        is_cel(v),
    ensures
        crate::script::value::is_value(cel_value(v)),
    decreases v,
{
    match v {
        CelView::List(x) => {
            let items = items_value(x);
            assert forall|i: int| 0 <= i < items.len() implies crate::script::value::is_value(
                #[trigger] items[i],
            ) by {
                values_keep_keys_apart(x[i]);
            }
        },
        CelView::Table(x) => {
            let entries = table_value(x);
            lemma_table_names(x);
            assert forall|i: int| 0 <= i < entries.len() implies crate::script::value::is_value(
                (#[trigger] entries[i]).1,
            ) by {
                assert(comes_from_any(entries[i], x));
                let j = choose|j: int| comes_from(entries[i], x, j);
                values_keep_keys_apart(x[j].1);
            }
        },
        _ => {},
    }
}

/// What compiling an expression came to.
pub enum Compiled<P> {
    Program(P),
    /// It is no expression, for this cause.
    Refused(String),
    /// The parser panicked.
    Panicked,
}

/// What follows the evaluation of an expression.
pub enum Evaluation {
    /// Evaluate the next.
    Next,
    /// The run failed.
    Failed(ScriptError),
    /// It was the last, and this is the answer.
    Done(ScriptValue),
}

/// The engine. `S` is whatever stands for a source, `W` for a running watch,
/// `P` for a compiled expression, `H` for a host function.
pub struct CelEngine<S, W, P, H> {
    pub life: Lifecycle<S, W>,
    /// The expressions loaded, with their names.
    pub programs: Vec<(String, P)>,
    pub globals: StringMap<ScriptValue>,
    pub functions: StringMap<H>,
}

impl<S, W, P, H> Default for CelEngine<S, W, P, H> {
    fn default() -> (r: Self)
        ensures
            r.life.label@ == "cel engine"@,
            !r.life.initialized,
            r.life.bound is None,
            r.life.watchers@ == Map::<Seq<char>, W>::empty(),
            r.life.last_error is None,
            r.programs@ == Seq::<(String, P)>::empty(),
            r.globals@ == Map::<Seq<char>, ScriptValue>::empty(),
            r.functions@ == Map::<Seq<char>, H>::empty(),
    {
        Self::new()
    }
}

impl<S, W, P, H> CelEngine<S, W, P, H> {
    /// What the globals say.
    pub open spec fn global_views(&self) -> Map<Seq<char>, ValueView> {
        crate::script::value::value_map(self.globals@)
    }

    /// The engine before its first initialisation.
    pub fn new() -> (r: Self)
        ensures
            r.life.label@ == "cel engine"@,
            !r.life.initialized,
            r.life.bound is None,
            r.life.watchers@ == Map::<Seq<char>, W>::empty(),
            r.life.last_error is None,
            r.programs@ == Seq::<(String, P)>::empty(),
            r.globals@ == Map::<Seq<char>, ScriptValue>::empty(),
            r.functions@ == Map::<Seq<char>, H>::empty(),
    {
        CelEngine {
            life: Lifecycle::new("cel engine"),
            programs: Vec::new(),
            globals: StringMap::new(),
            functions: StringMap::new(),
        }
    }

    /// The name the engine is registered under.
    pub fn engine_type(&self) -> (r: &'static str)
        ensures
            r@ == NAME@,
    {
        NAME
    }

    /// What the engine offers: all that a full-featured engine does, and
    /// nothing that stands apart.
    pub fn capabilities(&self) -> (r: Capabilities)
        ensures
            r == (Capabilities {
                loader: true,
                executor: true,
                globals: true,
                functions: true,
                modules: true,
                watcher: true,
                sandbox: false,
                runtime_hooks: false,
                sync_executor: false,
                quota: false,
            }),
    {
        Capabilities::aggregate()
    }

    /// Initialises the engine.
    pub fn init(&mut self) -> (r: Result<(), ScriptError>)
        ensures
            old(self).life.initialized ==> old(self).life.failed(
                final(self).life,
                r,
                old(self).life.complaint(": already initialized"@),
            ),
            !old(self).life.initialized ==> r is Ok && final(self).life == (Lifecycle {
                initialized: true,
                last_error: None,
                ..old(self).life
            }),
            *final(self) == (CelEngine { life: final(self).life, ..*old(self) }),
    {
        self.life.begin_init()?;
        self.life.clear_error();
        Ok(())
    }

    /// Closes the engine. The watches that ran are handed back, to be ended.
    pub fn close(&mut self) -> (r: Vec<W>)
        ensures
            !final(self).life.initialized,
            final(self).life.bound is None,
            final(self).life.last_error is None,
            final(self).life.watchers@ == Map::<Seq<char>, W>::empty(),
            final(self).life.label == old(self).life.label,
            final(self).programs@ == Seq::<(String, P)>::empty(),
            final(self).globals@ == Map::<Seq<char>, ScriptValue>::empty(),
            final(self).functions@ == Map::<Seq<char>, H>::empty(),
            r@.len() == old(self).life.watchers.keys().len(),
            forall|i: int|
                0 <= i < r@.len()
                    ==> #[trigger] r@[i]
                    == old(self).life.watchers@[old(self).life.watchers.keys()[i]],
    {
        let ended = self.life.close();
        self.programs = Vec::new();
        self.globals = StringMap::new();
        self.functions = StringMap::new();
        ended
    }

    /// Takes what compiling an expression came to. An expression is kept under
    /// its name, to be evaluated.
    pub fn compiled(&mut self, name: &str, outcome: Compiled<P>) -> (r: Result<(), ScriptError>)
        ensures
            match outcome {
                Compiled::Program(p) => r is Ok && final(self).life == old(self).life.recording(
                    None,
                ) && final(self).programs@.len() == old(self).programs@.len() + 1
                    && final(self).programs@.drop_last() == old(self).programs@
                    && final(self).programs@.last().0@
                    == name@ && final(self).programs@.last().1 == p,
                Compiled::Refused(cause) => old(self).life.failed(
                    final(self).life,
                    r,
                    old(self).life.complaint(": compile failed: "@ + name@ + ": "@ + cause@),
                ) && final(self).programs == old(self).programs,
                Compiled::Panicked => old(self).life.failed(
                    final(self).life,
                    r,
                    old(self).life.complaint(
                        ": compile failed: "@ + name@ + ": "@ + "parser panicked"@,
                    ),
                ) && final(self).programs == old(self).programs,
            },
            final(self).globals == old(self).globals,
            final(self).functions == old(self).functions,
    {
        let cause = match outcome {
            Compiled::Program(p) => {
                let ghost before = self.programs@;
                self.programs.push((name.to_owned(), p));
                assert(self.programs@.drop_last() =~= before);
                self.life.clear_error();
                return Ok(());
            },
            Compiled::Refused(cause) => cause,
            Compiled::Panicked => "parser panicked".to_owned(),
        };
        let mut what = cat3(": compile failed: ", name, ": ");
        what.append(cause.as_str());
        Err(self.life.complain(what.as_str()))
    }

    /// Begins a run: gives the variables that all expressions see. There must
    /// be an expression.
    pub fn begin_execute(&mut self) -> (r: Result<Vec<(String, CelData)>, ScriptError>)
        ensures
            !old(self).life.initialized ==> old(self).life.failed(
                final(self).life,
                r,
                old(self).life.complaint(": not initialized"@),
            ),
            old(self).life.initialized && old(self).programs@.len() == 0 ==> old(self).life.failed(
                final(self).life,
                r,
                old(self).life.complaint(": no expression loaded"@),
            ),
            old(self).life.initialized && old(self).programs@.len() > 0 ==> r is Ok
                && final(self).life == old(self).life && bindings(r->Ok_0@) == variables(
                old(self).globals.keys(),
                old(self).global_views(),
            ),
            *final(self) == (CelEngine { life: final(self).life, ..*old(self) }),
    {
        self.life.guard()?;
        if self.programs.len() == 0 {
            return Err(self.life.complain(": no expression loaded"));
        }
        let mut vars: Vec<(String, CelData)> = Vec::new();
        let n: usize = self.globals.len();
        let ghost names = self.globals.keys();
        let ghost globals = self.global_views();
        let mut i: usize = 0;
        assert(bindings(vars@) =~= Seq::empty());
        assert(names.take(0) =~= Seq::empty());
        while i < n
            invariant
                i <= n,
                n == names.len(),
                names == self.globals.keys(),
                globals == self.global_views(),
                bindings(vars@) == variables(names.take(i as int), globals),
            decreases n - i,
        {
            let name = self.globals.key_at(i).clone();
            let value = self.globals.value_at(i);
            let ghost before = vars@;
            proof {
                assert(names.take(i + 1).drop_last() =~= names.take(i as int));
                assert(names.take(i + 1).last() == names[i as int]);
                assert(globals[name@] == value@);
            }
            if let Ok(data) = to_cel(value) {
                vars.push((name, data));
                assert(bindings(vars@) =~= bindings(before).push((name@, data@)));
            }
            i += 1;
        }
        assert(names.take(n as int) =~= names);
        Ok(vars)
    }

    /// Begins a run of the expression that was loaded last, and of no other:
    /// gives its number and the variables that it sees. There must be an
    /// expression.
    pub fn begin_execute_last(&mut self) -> (r: Result<
        (usize, Vec<(String, CelData)>),
        ScriptError,
    >)
        ensures
            !old(self).life.initialized ==> old(self).life.failed(
                final(self).life,
                r,
                old(self).life.complaint(": not initialized"@),
            ),
            old(self).life.initialized && old(self).programs@.len() == 0 ==> old(self).life.failed(
                final(self).life,
                r,
                old(self).life.complaint(": no expression loaded"@),
            ),
            old(self).life.initialized && old(self).programs@.len() > 0 ==> r is Ok
                && final(self).life == old(self).life && r->Ok_0.0 == old(self).programs@.len() - 1
                && bindings(r->Ok_0.1@) == variables(
                old(self).globals.keys(),
                old(self).global_views(),
            ),
            *final(self) == (CelEngine { life: final(self).life, ..*old(self) }),
    {
        let vars = self.begin_execute()?;
        Ok((self.programs.len() - 1, vars))
    }

    /// Takes what expression number `index` evaluated to. The last expression
    /// gives the answer; one that fails ends the run.
    pub fn evaluated(&mut self, index: usize, outcome: Result<CelData, String>) -> (r: Evaluation)
        requires
            index < old(self).programs@.len(),
        ensures
            match outcome {
                Err(cause) => (r matches Evaluation::Failed(e) && e.says(
                    old(self).life.complaint(
                        ": evaluation failed: "@ + old(self).programs@[index as int].0@ + ": "@
                            + cause@,
                    ),
                ) && final(self).life == old(self).life.recording(Some(e))),
                Ok(data) => if index + 1 == old(self).programs@.len() {
                    (r matches Evaluation::Done(v) && v@ == cel_value(data@)) && final(self).life
                        == old(self).life.recording(None)
                } else {
                    r is Next && final(self).life == old(self).life
                },
            },
            *final(self) == (CelEngine { life: final(self).life, ..*old(self) }),
    {
        match outcome {
            Err(cause) => {
                let mut what = cat3(
                    ": evaluation failed: ",
                    self.programs[index].0.as_str(),
                    ": ",
                );
                what.append(cause.as_str());
                Evaluation::Failed(self.life.complain(what.as_str()))
            },
            Ok(data) => {
                if index == self.programs.len() - 1 {
                    self.life.clear_error();
                    Evaluation::Done(from_cel(&data))
                } else {
                    Evaluation::Next
                }
            },
        }
    }

    /// Sets a global.
    pub fn register_global(&mut self, name: &str, value: ScriptValue) -> (r: Result<
        (),
        ScriptError,
    >)
        ensures
            !old(self).life.initialized ==> old(self).life.failed(
                final(self).life,
                r,
                old(self).life.complaint(": not initialized"@),
            ) && final(self).globals == old(self).globals,
            old(self).life.initialized ==> r is Ok && final(self).life == old(self).life.recording(
                None,
            ) && final(self).globals@ == old(self).globals@.insert(name@, value),
            final(self).programs == old(self).programs,
            final(self).functions == old(self).functions,
    {
        self.life.guard()?;
        self.globals.insert(name.to_owned(), value);
        self.life.clear_error();
        Ok(())
    }

    /// Reads a global.
    pub fn get_global(&mut self, name: &str) -> (r: Result<ScriptValue, ScriptError>)
        ensures
            !old(self).life.initialized ==> old(self).life.failed(
                final(self).life,
                r,
                old(self).life.complaint(": not initialized"@),
            ),
            old(self).life.initialized && !old(self).globals@.contains_key(name@)
                ==> old(self).life.failed(
                final(self).life,
                r,
                old(self).life.complaint(": global not found: "@ + name@),
            ),
            old(self).life.initialized && old(self).globals@.contains_key(name@) ==> r is Ok
                && r->Ok_0@ == old(self).globals@[name@]@
                    && final(self).life == old(self).life.recording(None),
            *final(self) == (CelEngine { life: final(self).life, ..*old(self) }),
    {
        self.life.guard()?;
        let found = match self.globals.get(name) {
            Some(value) => Some(value.clone()),
            None => None,
        };
        match found {
            Some(value) => {
                self.life.clear_error();
                Ok(value)
            },
            None => {
                let what = cat(": global not found: ", name);
                Err(self.life.complain(what.as_str()))
            },
        }
    }

    /// Keeps a host function.
    pub fn register_function(&mut self, name: &str, function: H) -> (r: Result<(), ScriptError>)
        ensures
            !old(self).life.initialized ==> old(self).life.failed(
                final(self).life,
                r,
                old(self).life.complaint(": not initialized"@),
            ) && final(self).functions == old(self).functions,
            old(self).life.initialized ==> r is Ok && final(self).life == old(self).life.recording(
                None,
            ) && final(self).functions@ == old(self).functions@.insert(name@, function),
            final(self).programs == old(self).programs,
            final(self).globals == old(self).globals,
    {
        self.life.guard()?;
        self.functions.insert(name.to_owned(), function);
        self.life.clear_error();
        Ok(())
    }

    /// Begins a call of a host function. It must be there.
    pub fn begin_call(&mut self, name: &str) -> (r: Result<(), ScriptError>)
        ensures
            !old(self).life.initialized ==> old(self).life.failed(
                final(self).life,
                r,
                old(self).life.complaint(": not initialized"@),
            ),
            old(self).life.initialized && !old(self).functions@.contains_key(name@)
                ==> old(self).life.failed(
                final(self).life,
                r,
                old(self).life.complaint(": function not found: "@ + name@),
            ),
            old(self).life.initialized && old(self).functions@.contains_key(name@) ==> r is Ok
                && final(self).life == old(self).life,
            *final(self) == (CelEngine { life: final(self).life, ..*old(self) }),
    {
        self.life.guard()?;
        if !self.functions.contains_key(name) {
            let what = cat(": function not found: ", name);
            return Err(self.life.complain(what.as_str()));
        }
        Ok(())
    }

    /// Ends a call of a host function, whatever it gave: the last error is
    /// forgotten, and what it gave is passed on.
    pub fn called<T>(&mut self, answer: Result<T, ScriptError>) -> (r: Result<T, ScriptError>)
        ensures
            r == answer,
            final(self).life == old(self).life.recording(None),
            *final(self) == (CelEngine { life: final(self).life, ..*old(self) }),
    {
        self.life.clear_error();
        answer
    }

    /// Registers a module: its entries become globals. A module is a map.
    pub fn register_module(&mut self, name: &str, module: &ScriptValue) -> (r: Result<
        (),
        ScriptError,
    >)
        ensures
            !old(self).life.initialized ==> old(self).life.failed(
                final(self).life,
                r,
                old(self).life.complaint(": not initialized"@),
            ) && final(self).globals == old(self).globals,
            old(self).life.initialized && !(module@ is Entries) ==> old(self).life.failed(
                final(self).life,
                r,
                old(self).life.complaint(": register_module expects a map"@),
            ) && final(self).globals == old(self).globals,
            old(self).life.initialized && module@ is Entries ==> r is Ok
                && final(self).life == old(self).life.recording(None) && final(self).global_views()
                == crate::script::value::with_module(
                old(self).global_views(),
                name@,
                module@->Entries_0,
            ),
            final(self).programs == old(self).programs,
            final(self).functions == old(self).functions,
    {
        self.life.guard()?;
        match module {
            ScriptValue::Entries(entries) => {
                flatten_module(&mut self.globals, name, entries);
                self.life.clear_error();
                Ok(())
            },
            _ => Err(self.life.complain(": register_module expects a map")),
        }
    }
}

/// Makes an engine, not initialised.
pub fn factory<S, W, P, H>() -> (r: Result<CelEngine<S, W, P, H>, ScriptError>)
    ensures
        r is Ok,
        !r->Ok_0.life.initialized,
        r->Ok_0.life.label@ == "cel engine"@,
        r->Ok_0.programs@ == Seq::<(String, P)>::empty(),
        r->Ok_0.globals@ == Map::<Seq<char>, ScriptValue>::empty(),
{
    Ok(CelEngine::new())
}

/// Registers the factory of the engine under its name. Where the name is taken
/// nothing happens.
pub fn register<F>(registry: &mut FactoryRegistry<F>, factory: F)
    ensures
        old(registry)@.contains_key(NAME@) ==> *final(registry) == *old(registry),
        !old(registry)@.contains_key(NAME@) ==> final(registry)@ == old(registry)@.insert(
            NAME@,
            factory,
        ),
{
    let _ = register_factory(registry, NAME, factory);
}

} // verus!
