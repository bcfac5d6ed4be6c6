//! Script values as JSON and back.
use vstd::prelude::*;

use crate::script::value::{finite, ScriptValue, ValueView};

verus! {

/// A JSON value.
#[derive(Debug, PartialEq)]
pub enum Json {
    /// `null`.
    Null,
    /// A truth value.
    Bool(bool),
    /// An integer that is not negative.
    Natural(u64),
    /// An integer below zero.
    Negative(i64),
    /// Any other number, by the bits of its double-precision form.
    Float(u64),
    /// A string.
    Text(String),
    /// An array.
    List(Vec<Json>),
    /// An object; no name occurs twice.
    Object(Vec<(String, Json)>),
}

/// What a JSON value says.
#[verifier::ext_equal]
pub enum JsonView {
    Null,
    Bool(bool),
    Natural(u64),
    Negative(i64),
    Float(u64),
    Text(Seq<char>),
    List(Seq<JsonView>),
    Object(Seq<(Seq<char>, JsonView)>),
}

/// What some JSON values say, one by one.
pub open spec fn list_view(items: Seq<Json>) -> Seq<JsonView>
    decreases items,
{
    Seq::new(
        items.len(),
        |i: int|
            if 0 <= i < items.len() {
                json_view(items[i])
            } else {
                JsonView::Null
            },
    )
}

/// What the members of an object say, one by one.
pub open spec fn object_view(members: Seq<(String, Json)>) -> Seq<(Seq<char>, JsonView)>
    decreases members,
{
    Seq::new(
        members.len(),
        |i: int|
            if 0 <= i < members.len() {
                (members[i].0@, json_view(members[i].1))
            } else {
                (Seq::empty(), JsonView::Null)
            },
    )
}

/// What a JSON value says.
pub open spec fn json_view(j: Json) -> JsonView
    decreases j,
{
    match j {
        Json::Null => JsonView::Null,
        Json::Bool(x) => JsonView::Bool(x),
        Json::Natural(x) => JsonView::Natural(x),
        Json::Negative(x) => JsonView::Negative(x),
        Json::Float(x) => JsonView::Float(x),
        Json::Text(x) => JsonView::Text(x@),
        Json::List(x) => JsonView::List(list_view(x@)),
        Json::Object(x) => JsonView::Object(object_view(x@)),
    }
}

impl View for Json {
    type V = JsonView;

    open spec fn view(&self) -> JsonView {
        json_view(*self)
    }
}

/// What a JSON value says is what it holds: an array says what its items do and
/// an object what its members do, one by one and in their order.
pub proof fn json_says_what_it_holds(j: Json)
    ensures
        match j {
            Json::Null => j@ == JsonView::Null,
            Json::Bool(x) => j@ == JsonView::Bool(x),
            Json::Natural(x) => j@ == JsonView::Natural(x),
            Json::Negative(x) => j@ == JsonView::Negative(x),
            Json::Float(x) => j@ == JsonView::Float(x),
            Json::Text(x) => j@ == JsonView::Text(x@),
            Json::List(x) => j@ matches JsonView::List(l) && l.len() == x@.len()
                && forall|i: int| #![trigger l[i]] 0 <= i < x@.len() ==> l[i] == x@[i]@,
            Json::Object(x) => j@ matches JsonView::Object(l) && l.len() == x@.len()
                && forall|i: int|
                #![trigger l[i]]
                0 <= i < x@.len() ==> l[i].0 == x@[i].0@ && l[i].1 == x@[i].1@,
        },
{
}

/// An integer as JSON.
pub open spec fn integer_json(n: i64) -> JsonView {
    if n < 0 {
        JsonView::Negative(n)
    } else {
        JsonView::Natural(n as u64)
    }
}

/// Some values as JSON, one by one.
pub open spec fn items_json(
    items: Seq<ValueView>,
) -> Seq<JsonView>
    decreases items,
{
    Seq::new(
        items.len(),
        |i: int|
            if 0 <= i < items.len() {
                value_json(items[i])
            } else {
                JsonView::Null
            },
    )
}

/// Some entries as JSON, one by one.
pub open spec fn entries_json(
    entries: Seq<(Seq<char>, ValueView)>,
) -> Seq<(Seq<char>, JsonView)>
    decreases entries,
{
    Seq::new(
        entries.len(),
        |i: int|
            if 0 <= i < entries.len() {
                (entries[i].0, value_json(entries[i].1))
            } else {
                (Seq::empty(), JsonView::Null)
            },
    )
}

/// A script value as JSON. A number that JSON does not have becomes zero, and
/// bytes become a list of numbers.
pub open spec fn value_json(v: ValueView) -> JsonView
    decreases v,
{
    match v {
        ValueView::Null => JsonView::Null,
        ValueView::Bool(x) => JsonView::Bool(x),
        ValueView::Int(x) => integer_json(x),
        ValueView::UInt(x) => JsonView::Natural(x),
        ValueView::Float(x) => if crate::script::value::is_finite(x) {
            JsonView::Float(x)
        } else {
            JsonView::Natural(0)
        },
        ValueView::Text(x) => JsonView::Text(x),
        ValueView::Bytes(x) => JsonView::List(
            Seq::new(x.len(), |i: int| JsonView::Natural(x[i] as u64)),
        ),
        ValueView::Array(x) => JsonView::List(items_json(x)),
        ValueView::Entries(x) => JsonView::Object(entries_json(x)),
    }
}

/// Some JSON values as script values, one by one.
pub open spec fn items_value(items: Seq<JsonView>) -> Seq<ValueView>
    decreases items,
{
    Seq::new(
        items.len(),
        |i: int|
            if 0 <= i < items.len() {
                json_value(items[i])
            } else {
                ValueView::Null
            },
    )
}

/// The members of an object as entries, one by one.
pub open spec fn members_value(members: Seq<(Seq<char>, JsonView)>) -> Seq<
    (Seq<char>, ValueView),
>
    decreases members,
{
    Seq::new(
        members.len(),
        |i: int|
            if 0 <= i < members.len() {
                (members[i].0, json_value(members[i].1))
            } else {
                (Seq::empty(), ValueView::Null)
            },
    )
}

/// A JSON value as a script value. An integer is signed where that is wide
/// enough for it.
pub open spec fn json_value(j: JsonView) -> ValueView
    decreases j,
{
    match j {
        JsonView::Null => ValueView::Null,
        JsonView::Bool(x) => ValueView::Bool(x),
        JsonView::Natural(x) => if x <= i64::MAX {
            ValueView::Int(x as i64)
        } else {
            ValueView::UInt(x)
        },
        JsonView::Negative(x) => ValueView::Int(x),
        JsonView::Float(x) => ValueView::Float(x),
        JsonView::Text(x) => ValueView::Text(x),
        JsonView::List(x) => ValueView::Array(items_value(x)),
        JsonView::Object(x) => ValueView::Entries(members_value(x)),
    }
}

/// A script value as JSON.
pub fn to_json(value: &ScriptValue) -> (r: Json)
    ensures
        r@ == value_json(value@),
    decreases value,
{
    match value {
        ScriptValue::Null => Json::Null,
        ScriptValue::Bool(v) => Json::Bool(*v),
        ScriptValue::Int(v) => if *v < 0 {
            Json::Negative(*v)
        } else {
            Json::Natural(*v as u64)
        },
        ScriptValue::UInt(v) => Json::Natural(*v),
        ScriptValue::Float(v) => if finite(*v) {
            Json::Float(*v)
        } else {
            Json::Natural(0)
        },
        ScriptValue::Text(v) => Json::Text(v.clone()),
        ScriptValue::Bytes(v) => {
            let mut out: Vec<Json> = Vec::new();
            let mut i: usize = 0;
            while i < v.len()
                invariant
                    i <= v@.len(),
                    out@.len() == i,
                    forall|j: int|
                        0 <= j < i ==> (#[trigger] out@[j])@ == JsonView::Natural(v@[j] as u64),
                decreases v@.len() - i,
            {
                out.push(Json::Natural(v[i] as u64));
                i += 1;
            }
            assert(list_view(out@) =~= Seq::new(
                v@.len(),
                |j: int| JsonView::Natural(v@[j] as u64),
            ));
            Json::List(out)
        },
        ScriptValue::Array(items) => {
            let mut out: Vec<Json> = Vec::new();
            let mut i: usize = 0;
            while i < items.len()
                invariant
                    i <= items@.len(),
                    out@.len() == i,
                    *value == ScriptValue::Array(*items),
                    forall|j: int|
                        0 <= j < i ==> (#[trigger] out@[j])@ == value_json(items@[j]@),
                decreases items@.len() - i,
            {
                assert(decreases_to!(*value => value->Array_0));
                assert(decreases_to!(*items => items@));
                assert(decreases_to!(items@ => items@[i as int]));
                let item = to_json(&items[i]);
                out.push(item);
                i += 1;
            }
            assert(list_view(out@) =~= items_json(crate::script::value::views(items@)));
            Json::List(out)
        },
        ScriptValue::Entries(entries) => {
            let mut out: Vec<(String, Json)> = Vec::new();
            let mut i: usize = 0;
            while i < entries.len()
                invariant
                    i <= entries@.len(),
                    out@.len() == i,
                    *value == ScriptValue::Entries(*entries),
                    forall|j: int|
                        0 <= j < i ==> (#[trigger] out@[j]).0@ == entries@[j].0@ && out@[j].1@
                            == value_json(entries@[j].1@),
                decreases entries@.len() - i,
            {
                assert(decreases_to!(*value => value->Entries_0));
                assert(decreases_to!(*entries => entries@));
                assert(decreases_to!(entries@ => entries@[i as int]));
                assert(decreases_to!(entries@[i as int] => entries@[i as int].1));
                let item = to_json(&entries[i].1);
                out.push((entries[i].0.clone(), item));
                i += 1;
            }
            assert(object_view(out@) =~= entries_json(
                crate::script::value::entry_views(entries@),
            ));
            Json::Object(out)
        },
    }
}

/// A JSON value as a script value.
pub fn from_json(json: &Json) -> (r: ScriptValue)
    ensures
        r@ == json_value(json@),
    decreases json,
{
    match json {
        Json::Null => ScriptValue::Null,
        Json::Bool(v) => ScriptValue::Bool(*v),
        Json::Natural(v) => if *v <= i64::MAX as u64 {
            ScriptValue::Int(*v as i64)
        } else {
            ScriptValue::UInt(*v)
        },
        Json::Negative(v) => ScriptValue::Int(*v),
        Json::Float(v) => ScriptValue::Float(*v),
        Json::Text(v) => ScriptValue::Text(v.clone()),
        Json::List(items) => {
            let mut out: Vec<ScriptValue> = Vec::new();
            let mut i: usize = 0;
            while i < items.len()
                invariant
                    i <= items@.len(),
                    out@.len() == i,
                    *json == Json::List(*items),
                    forall|j: int|
                        0 <= j < i ==> (#[trigger] out@[j])@ == json_value(items@[j]@),
                decreases items@.len() - i,
            {
                assert(decreases_to!(*json => json->List_0));
                assert(decreases_to!(*items => items@));
                assert(decreases_to!(items@ => items@[i as int]));
                let item = from_json(&items[i]);
                out.push(item);
                i += 1;
            }
            assert(crate::script::value::views(out@) =~= items_value(list_view(items@)));
            ScriptValue::Array(out)
        },
        Json::Object(members) => {
            let mut out: Vec<(String, ScriptValue)> = Vec::new();
            let mut i: usize = 0;
            while i < members.len()
                invariant
                    i <= members@.len(),
                    out@.len() == i,
                    *json == Json::Object(*members),
                    forall|j: int|
                        0 <= j < i ==> (#[trigger] out@[j]).0@ == members@[j].0@ && out@[j].1@
                            == json_value(members@[j].1@),
                decreases members@.len() - i,
            {
                assert(decreases_to!(*json => json->Object_0));
                assert(decreases_to!(*members => members@));
                assert(decreases_to!(members@ => members@[i as int]));
                assert(decreases_to!(members@[i as int] => members@[i as int].1));
                let item = from_json(&members[i].1);
                out.push((members[i].0.clone(), item));
                i += 1;
            }
            assert(crate::script::value::entry_views(out@) =~= members_value(
                object_view(members@),
            ));
            ScriptValue::Entries(out)
        },
    }
}

/// No name occurs twice, in the JSON value or in what it holds.
pub open spec fn is_json(j: JsonView) -> bool
    decreases j,
{
    match j {
        JsonView::List(x) => forall|i: int| 0 <= i < x.len() ==> is_json(#[trigger] x[i]),
        JsonView::Object(x) => crate::script::value::names_once(x) && forall|i: int|
            0 <= i < x.len() ==> is_json((#[trigger] x[i]).1),
        _ => true,
    }
}

/// A value in which no name occurs twice goes into JSON in which none does.
pub proof fn json_keeps_names_apart(v: ValueView)
    requires
        crate::script::value::is_value(v),
    ensures
        is_json(value_json(v)),
    decreases v,
{
    match v {
        ValueView::Bytes(x) => {
            let items = Seq::new(x.len(), |i: int| JsonView::Natural(x[i] as u64));
            assert forall|i: int| 0 <= i < items.len() implies is_json(#[trigger] items[i]) by {}
            assert(value_json(v) == JsonView::List(items));
        },
        ValueView::Array(x) => {
            let items = items_json(x);
            assert forall|i: int| 0 <= i < items.len() implies is_json(#[trigger] items[i]) by {
                json_keeps_names_apart(x[i]);
            }
        },
        ValueView::Entries(x) => {
            let members = entries_json(x);
            assert forall|i: int| 0 <= i < members.len() implies is_json(
                (#[trigger] members[i]).1,
            ) by {
                json_keeps_names_apart(x[i].1);
            }
            assert forall|a: int, b: int| 0 <= a < b < members.len() implies (
            #[trigger] members[a]).0 != (#[trigger] members[b]).0 by {
                assert(x[a].0 != x[b].0);
            }
        },
        _ => {},
    }
}

/// JSON in which no name occurs twice comes back as a value in which none does.
pub proof fn values_keep_names_apart(j: JsonView)
    requires
        is_json(j),
    ensures
        crate::script::value::is_value(json_value(j)),
    decreases j,
{
    match j {
        JsonView::List(x) => {
            let items = items_value(x);
            assert forall|i: int| 0 <= i < items.len() implies crate::script::value::is_value(
                #[trigger] items[i],
            ) by {
                values_keep_names_apart(x[i]);
            }
        },
        JsonView::Object(x) => {
            let entries = members_value(x);
            assert forall|i: int| 0 <= i < entries.len() implies crate::script::value::is_value(
                (#[trigger] entries[i]).1,
            ) by {
                values_keep_names_apart(x[i].1);
            }
            assert forall|a: int, b: int| 0 <= a < b < entries.len() implies (
            #[trigger] entries[a]).0 != (#[trigger] entries[b]).0 by {
                assert(x[a].0 != x[b].0);
            }
        },
        _ => {},
    }
}

/// Some values after a journey through JSON, one by one.
pub open spec fn bridged_items(items: Seq<ValueView>) -> Seq<
    ValueView,
>
    decreases items,
{
    Seq::new(
        items.len(),
        |i: int|
            if 0 <= i < items.len() {
                bridged(items[i])
            } else {
                ValueView::Null
            },
    )
}

/// Some entries after a journey through JSON, one by one.
pub open spec fn bridged_entries(entries: Seq<(Seq<char>, ValueView)>) -> Seq<
    (Seq<char>, ValueView),
>
    decreases entries,
{
    Seq::new(
        entries.len(),
        |i: int|
            if 0 <= i < entries.len() {
                (entries[i].0, bridged(entries[i].1))
            } else {
                (Seq::empty(), ValueView::Null)
            },
    )
}

/// A value after a journey through JSON: itself, but that an unsigned integer
/// comes back signed where it can, bytes come back as a list of integers, and
/// what is no number comes back as zero.
pub open spec fn bridged(v: ValueView) -> ValueView
    decreases v,
{
    match v {
        ValueView::UInt(x) => if x <= i64::MAX {
            ValueView::Int(x as i64)
        } else {
            v
        },
        ValueView::Float(x) => if crate::script::value::is_finite(x) {
            v
        } else {
            ValueView::Int(0)
        },
        ValueView::Bytes(x) => ValueView::Array(
            Seq::new(x.len(), |i: int| ValueView::Int(x[i] as i64)),
        ),
        ValueView::Array(x) => ValueView::Array(
            bridged_items(x),
        ),
        ValueView::Entries(x) => ValueView::Entries(
            bridged_entries(x),
        ),
        _ => v,
    }
}

/// A value that goes into JSON comes back as itself, up to the forms that JSON
/// does not tell apart.
pub proof fn json_reads_back(v: ValueView)
    ensures
        json_value(value_json(v)) == bridged(v),
    decreases v,
{
    match v {
        ValueView::Bytes(x) => {
            assert forall|i: int| 0 <= i < x.len() implies json_value(
                JsonView::Natural(#[trigger] x[i] as u64),
            ) == ValueView::Int(x[i] as i64) by {}
            let list = Seq::new(x.len(), |i: int| JsonView::Natural(x[i] as u64));
            assert(items_value(list) =~= bridged(v)->Array_0);
        },
        ValueView::Array(x) => {
            assert forall|i: int| 0 <= i < x.len() implies json_value(
                value_json(#[trigger] x[i]),
            ) == bridged(x[i]) by {
                json_reads_back(x[i]);
            }
            assert(json_value(value_json(v))->Array_0 =~= bridged_items(x));
        },
        ValueView::Entries(x) => {
            assert forall|i: int| 0 <= i < x.len() implies json_value(
                value_json((#[trigger] x[i]).1),
            ) == bridged(x[i].1) by {
                json_reads_back(x[i].1);
            }
            assert(json_value(value_json(v))->Entries_0 =~= bridged_entries(x));
        },
        _ => {},
    }
}

/// A value as JSON keeps its kind. A list keeps its length and its order, and
/// entries keep their names too; bytes are numbers, one each, in their order. A
/// number keeps its value, but for one that JSON does not have.
pub proof fn json_keeps_places_and_names(v: ValueView)
    ensures
        match v {
            ValueView::Null => value_json(v) == JsonView::Null,
            ValueView::Bool(x) => value_json(v) == JsonView::Bool(x),
            ValueView::Int(x) => match value_json(v) {
                JsonView::Natural(n) => n == x && x >= 0,
                JsonView::Negative(n) => n == x && 0 > x,
                _ => false,
            },
            ValueView::UInt(x) => value_json(v) == JsonView::Natural(x),
            ValueView::Float(x) => if crate::script::value::is_finite(x) {
                value_json(v) == JsonView::Float(x)
            } else {
                value_json(v) == JsonView::Natural(0)
            },
            ValueView::Text(x) => value_json(v) == JsonView::Text(x),
            ValueView::Bytes(x) => value_json(v) matches JsonView::List(l) && l.len() == x.len()
                && forall|i: int|
                #![trigger l[i]]
                0 <= i < x.len() ==> (l[i] matches JsonView::Natural(n) && n == x[i]),
            ValueView::Array(x) => value_json(v) matches JsonView::List(l) && l.len() == x.len()
                && forall|i: int|
                #![trigger l[i]]
                0 <= i < x.len() ==> l[i] == value_json(x[i]),
            ValueView::Entries(x) => value_json(v) matches JsonView::Object(l) && l.len() == x.len()
                && forall|i: int|
                #![trigger l[i]]
                0 <= i < x.len() ==> l[i].0 == x[i].0 && l[i].1 == value_json(x[i].1),
        },
{
}

/// JSON as a value keeps its kind. An array keeps its length and its order, an
/// object its names too, and every integer its value: as an unsigned one only
/// where no signed one is wide enough.
pub proof fn values_keep_places_and_names(j: JsonView)
    ensures
        match j {
            JsonView::Null => json_value(j) == ValueView::Null,
            JsonView::Bool(x) => json_value(j) == ValueView::Bool(x),
            JsonView::Natural(x) => match json_value(j) {
                ValueView::Int(n) => n == x,
                ValueView::UInt(n) => n == x && x > i64::MAX,
                _ => false,
            },
            JsonView::Negative(x) => json_value(j) == ValueView::Int(x),
            JsonView::Float(x) => json_value(j) == ValueView::Float(x),
            JsonView::Text(x) => json_value(j) == ValueView::Text(x),
            JsonView::List(x) => json_value(j) matches ValueView::Array(l) && l.len() == x.len()
                && forall|i: int|
                #![trigger l[i]]
                0 <= i < x.len() ==> l[i] == json_value(x[i]),
            JsonView::Object(x) => json_value(j) matches ValueView::Entries(l) && l.len() == x.len()
                && forall|i: int|
                #![trigger l[i]]
                0 <= i < x.len() ==> l[i].0 == x[i].0 && l[i].1 == json_value(x[i].1),
        },
{
}

} // verus!
