//! The Starlark engine. Scripts accumulate: every run is a run of all of them.
use vstd::prelude::*;

use crate::script::engine::Capabilities;
use crate::script::error::ScriptError;
use crate::script::factory::{register_factory, FactoryRegistry};
use crate::script::json_tree::{from_json, Json};
use crate::script::lifecycle::Lifecycle;
use crate::script::value::{flatten_module, ScriptValue, ValueView};
use crate::string_map::StringMap;
use crate::text::{cat, cat3, decode_lossy};

verus! {

/// The name the engine is registered under.
pub const NAME: &'static str = "starlark";

/// A Starlark value, as data.
#[derive(Debug, PartialEq)]
pub enum StarData {
    Nothing,
    Bool(bool),
    Int(i32),
    /// A double-precision number, by its bits.
    Float(u64),
    Text(String),
    List(Vec<StarData>),
    Dict(Vec<(String, StarData)>),
}

/// What a value says.
#[verifier::ext_equal]
pub enum StarView {
    Nothing,
    Bool(bool),
    Int(i32),
    Float(u64),
    Text(Seq<char>),
    List(Seq<StarView>),
    Dict(Seq<(Seq<char>, StarView)>),
}

/// What some values say, one by one.
pub open spec fn list_view(items: Seq<StarData>) -> Seq<StarView>
    decreases items,
{
    Seq::new(
        items.len(),
        |i: int|
            if 0 <= i < items.len() {
                star_view(items[i])
            } else {
                StarView::Nothing
            },
    )
}

/// What the entries of a dictionary say, one by one.
pub open spec fn dict_view(entries: Seq<(String, StarData)>) -> Seq<(Seq<char>, StarView)>
    decreases entries,
{
    Seq::new(
        entries.len(),
        |i: int|
            if 0 <= i < entries.len() {
                (entries[i].0@, star_view(entries[i].1))
            } else {
                (Seq::empty(), StarView::Nothing)
            },
    )
}

/// What a value says.
pub open spec fn star_view(v: StarData) -> StarView
    decreases v,
{
    match v {
        StarData::Nothing => StarView::Nothing,
        StarData::Bool(x) => StarView::Bool(x),
        StarData::Int(x) => StarView::Int(x),
        StarData::Float(x) => StarView::Float(x),
        StarData::Text(x) => StarView::Text(x@),
        StarData::List(x) => StarView::List(list_view(x@)),
        StarData::Dict(x) => StarView::Dict(dict_view(x@)),
    }
}

impl View for StarData {
    type V = StarView;

    open spec fn view(&self) -> StarView {
        star_view(*self)
    }
}

/// What a value says is what it holds: a list says what its items do and a
/// dictionary what its entries do, one by one and in their order.
pub proof fn data_says_what_it_holds(v: StarData)
    ensures
        match v {
            StarData::Nothing => v@ == StarView::Nothing,
            StarData::Bool(x) => v@ == StarView::Bool(x),
            StarData::Int(x) => v@ == StarView::Int(x),
            StarData::Float(x) => v@ == StarView::Float(x),
            StarData::Text(x) => v@ == StarView::Text(x@),
            StarData::List(x) => v@ matches StarView::List(l) && l.len() == x@.len()
                && forall|i: int| #![trigger l[i]] 0 <= i < x@.len() ==> l[i] == x@[i]@,
            StarData::Dict(x) => v@ matches StarView::Dict(l) && l.len() == x@.len()
                && forall|i: int|
                #![trigger l[i]]
                0 <= i < x@.len() ==> l[i].0 == x@[i].0@ && l[i].1 == x@[i].1@,
        },
{
}

/// The nearest integer of 32 bits.
pub open spec fn clamped(n: int) -> int {
    if n < i32::MIN {
        i32::MIN as int
    } else if n > i32::MAX {
        i32::MAX as int
    } else {
        n
    }
}

/// The nearest integer of 32 bits.
pub fn clamp_int(n: i128) -> (r: i32)
    ensures
        r == clamped(n as int),
{
    if n < i32::MIN as i128 {
        i32::MIN
    } else if n > i32::MAX as i128 {
        i32::MAX
    } else {
        n as i32
    }
}

/// Some script values as Starlark values, one by one.
pub open spec fn items_star(items: Seq<ValueView>) -> Seq<StarView>
    decreases items,
{
    Seq::new(
        items.len(),
        |i: int|
            if 0 <= i < items.len() {
                value_star(items[i])
            } else {
                StarView::Nothing
            },
    )
}

/// Some entries as the entries of a dictionary, one by one.
pub open spec fn entries_star(entries: Seq<(Seq<char>, ValueView)>) -> Seq<(Seq<char>, StarView)>
    decreases entries,
{
    Seq::new(
        entries.len(),
        |i: int|
            if 0 <= i < entries.len() {
                (entries[i].0, value_star(entries[i].1))
            } else {
                (Seq::empty(), StarView::Nothing)
            },
    )
}

/// A script value as a Starlark value. Integers are clamped to 32 bits, and
/// bytes become a text, with replacements where they are not UTF-8.
pub open spec fn value_star(v: ValueView) -> StarView
    decreases v,
{
    match v {
        ValueView::Null => StarView::Nothing,
        ValueView::Bool(x) => StarView::Bool(x),
        ValueView::Int(x) => StarView::Int(clamped(x as int) as i32),
        ValueView::UInt(x) => StarView::Int(clamped(x as int) as i32),
        ValueView::Float(x) => StarView::Float(x),
        ValueView::Text(x) => StarView::Text(x),
        ValueView::Bytes(x) => StarView::Text(crate::text::lossy_text(x)),
        ValueView::Array(x) => StarView::List(items_star(x)),
        ValueView::Entries(x) => StarView::Dict(entries_star(x)),
    }
}

/// A script value as a Starlark value.
pub fn to_starlark(value: &ScriptValue) -> (r: StarData)
    ensures
        r@ == value_star(value@),
    decreases value,
{
    match value {
        ScriptValue::Null => StarData::Nothing,
        ScriptValue::Bool(v) => StarData::Bool(*v),
        ScriptValue::Int(v) => StarData::Int(clamp_int(*v as i128)),
        ScriptValue::UInt(v) => StarData::Int(clamp_int(*v as i128)),
        ScriptValue::Float(v) => StarData::Float(*v),
        ScriptValue::Text(v) => StarData::Text(v.clone()),
        ScriptValue::Bytes(v) => StarData::Text(decode_lossy(v.as_slice())),
        ScriptValue::Array(items) => {
            let mut out: Vec<StarData> = Vec::new();
            let mut i: usize = 0;
            while i < items.len()
                invariant
                    i <= items@.len(),
                    out@.len() == i,
                    *value == ScriptValue::Array(*items),
                    forall|j: int| 0 <= j < i ==> (#[trigger] out@[j])@ == value_star(items@[j]@),
                decreases items@.len() - i,
            {
                assert(decreases_to!(*value => value->Array_0));
                assert(decreases_to!(*items => items@));
                assert(decreases_to!(items@ => items@[i as int]));
                let item = to_starlark(&items[i]);
                out.push(item);
                i += 1;
            }
            assert(list_view(out@) =~= items_star(crate::script::value::views(items@)));
            StarData::List(out)
        },
        ScriptValue::Entries(entries) => {
            let mut out: Vec<(String, StarData)> = Vec::new();
            let mut i: usize = 0;
            while i < entries.len()
                invariant
                    i <= entries@.len(),
                    out@.len() == i,
                    *value == ScriptValue::Entries(*entries),
                    forall|j: int|
                        0 <= j < i ==> (#[trigger] out@[j]).0@ == entries@[j].0@ && out@[j].1@
                            == value_star(entries@[j].1@),
                decreases entries@.len() - i,
            {
                assert(decreases_to!(*value => value->Entries_0));
                assert(decreases_to!(*entries => entries@));
                assert(decreases_to!(entries@ => entries@[i as int]));
                assert(decreases_to!(entries@[i as int] => entries@[i as int].1));
                let item = to_starlark(&entries[i].1);
                out.push((entries[i].0.clone(), item));
                i += 1;
            }
            assert(dict_view(out@) =~= entries_star(crate::script::value::entry_views(entries@)));
            StarData::Dict(out)
        },
    }
}

/// No name occurs twice, in the Starlark value or in what it holds.
pub open spec fn is_star(v: StarView) -> bool
    decreases v,
{
    match v {
        StarView::List(x) => forall|i: int| 0 <= i < x.len() ==> is_star(#[trigger] x[i]),
        StarView::Dict(x) => crate::script::value::names_once(x) && forall|i: int|
            0 <= i < x.len() ==> is_star((#[trigger] x[i]).1),
        _ => true,
    }
}

/// A value in which no name occurs twice becomes one in which none does.
pub proof fn dictionaries_keep_names_apart(v: ValueView)
    requires
        crate::script::value::is_value(v),
    ensures
        is_star(value_star(v)),
    decreases v,
{
    match v {
        ValueView::Array(x) => {
            let items = items_star(x);
            assert forall|i: int| 0 <= i < items.len() implies is_star(#[trigger] items[i]) by {
                dictionaries_keep_names_apart(x[i]);
            }
        },
        ValueView::Entries(x) => {
            let entries = entries_star(x);
            assert forall|i: int| 0 <= i < entries.len() implies is_star(
                (#[trigger] entries[i]).1,
            ) by {
                dictionaries_keep_names_apart(x[i].1);
            }
            assert forall|a: int, b: int| 0 <= a < b < entries.len() implies (
            #[trigger] entries[a]).0 != (#[trigger] entries[b]).0 by {
                assert(x[a].0 != x[b].0);
            }
        },
        _ => {},
    }
}

/// An integer of 32 bits crosses as itself, a larger or smaller one as the
/// nearest: no integer of 32 bits is closer to it.
pub proof fn nearest_integer_is_taken(n: int, other: i32)
    ensures
        i32::MIN <= clamped(n) <= i32::MAX,
        clamped(other as int) == other,
        n >= clamped(n) ==> n - clamped(n) <= n - other || other > n,
        clamped(n) >= n ==> clamped(n) - n <= other - n || n > other,
        n > i32::MAX ==> clamped(n) == i32::MAX,
        i32::MIN > n ==> clamped(n) == i32::MIN,
{
}

/// A value crosses as the Starlark value of its kind. A list keeps its length
/// and its order, and entries keep their names too; an integer crosses as the
/// nearest of 32 bits, bytes as the text that they encode.
pub proof fn starlark_keeps_places_and_names(v: ValueView)
    ensures
        match v {
            ValueView::Null => value_star(v) == StarView::Nothing,
            ValueView::Bool(x) => value_star(v) == StarView::Bool(x),
            ValueView::Int(x) => value_star(v) matches StarView::Int(n) && n == clamped(x as int),
            ValueView::UInt(x) => value_star(v) matches StarView::Int(n) && n == clamped(x as int),
            ValueView::Float(x) => value_star(v) == StarView::Float(x),
            ValueView::Text(x) => value_star(v) == StarView::Text(x),
            ValueView::Bytes(x) => value_star(v) == StarView::Text(crate::text::lossy_text(x)),
            ValueView::Array(x) => value_star(v) matches StarView::List(l) && l.len() == x.len()
                && forall|i: int|
                #![trigger l[i]]
                0 <= i < x.len() ==> l[i] == value_star(x[i]),
            ValueView::Entries(x) => value_star(v) matches StarView::Dict(l) && l.len() == x.len()
                && forall|i: int|
                #![trigger l[i]]
                0 <= i < x.len() ==> l[i].0 == x[i].0 && l[i].1 == value_star(x[i].1),
        },
{
}

/// What the runtime gave, as a script value: null where it has no JSON form.
pub open spec fn given(json: Option<Json>) -> ValueView {
    match json {
        Some(j) => crate::script::json_tree::json_value(j@),
        None => ValueView::Null,
    }
}

/// What the runtime gave is read as the JSON it has, and as null where it has
/// none.
pub proof fn result_is_read_as_it_is(json: Json)
    ensures
        given(Some(json)) == crate::script::json_tree::json_value(json@),
        given(None) == ValueView::Null,
{
}

/// What the runtime gave, as a script value.
pub fn from_starlark(json: &Option<Json>) -> (r: ScriptValue)
    ensures
        r@ == given(*json),
{
    match json {
        Some(j) => from_json(j),
        None => ScriptValue::Null,
    }
}

/// A script: its name and its text.
pub struct Script {
    pub name: String,
    pub code: String,
}

/// What scripts say: their names and texts.
pub open spec fn script_views(scripts: Seq<Script>) -> Seq<(Seq<char>, Seq<char>)> {
    Seq::new(scripts.len(), |i: int| (scripts[i].name@, scripts[i].code@))
}

/// What scripts say is what each of them does, one by one and in their order.
pub proof fn scripts_say_what_they_hold(scripts: Seq<Script>)
    ensures
        script_views(scripts).len() == scripts.len(),
        forall|i: int|
            #![trigger scripts[i]]
            0 <= i < scripts.len() ==> script_views(scripts)[i] == (
                scripts[i].name@,
                scripts[i].code@,
            ),
{
}

/// What follows the run of a script among others.
pub enum ScriptStep {
    /// Run the script of this number.
    Next(usize),
    /// All scripts ran.
    AllRan,
    /// The script of this name failed, for this cause.
    Failed {
        name: String,
        cause: String,
    },
}

/// Takes what script number `index` came to. The first that fails ends the run.
pub fn script_ran(scripts: &Vec<Script>, index: usize, outcome: Result<(), String>) -> (r:
    ScriptStep)
    requires
        index < scripts@.len(),
    ensures
        match outcome {
            Err(cause) => (r matches ScriptStep::Failed { name: n, cause: c } && n@
                == scripts@[index as int].name@ && c == cause),
            Ok(_) => r == (if index + 1 < scripts@.len() {
                ScriptStep::Next((index + 1) as usize)
            } else {
                ScriptStep::AllRan
            }),
        },
{
    match outcome {
        Err(cause) => ScriptStep::Failed { name: scripts[index].name.clone(), cause },
        Ok(_) => {
            if index < scripts.len() - 1 {
                ScriptStep::Next(index + 1)
            } else {
                ScriptStep::AllRan
            }
        },
    }
}

fn copy_scripts(out: &mut Vec<Script>, scripts: &Vec<Script>)
    ensures
        script_views(final(out)@) == script_views(old(out)@) + script_views(scripts@),
{
    let ghost before = script_views(out@);
    let ghost all = script_views(scripts@);
    let mut i: usize = 0;
    assert(before + all.take(0) =~= before);
    while i < scripts.len()
        invariant
            i <= scripts@.len(),
            all == script_views(scripts@),
            script_views(out@) == before + all.take(i as int),
        decreases scripts@.len() - i,
    {
        let ghost held = out@;
        out.push(Script { name: scripts[i].name.clone(), code: scripts[i].code.clone() });
        proof {
            assert(script_views(out@) =~= script_views(held).push(all[i as int]));
            assert(before + all.take(i + 1) =~= (before + all.take(i as int)).push(all[i as int]));
        }
        i += 1;
    }
    assert(all.take(i as int) =~= all);
}

/// What a run of all scripts came to. `Z` is whatever stands for the
/// environment that a run leaves.
pub enum RunOutcome<Z> {
    /// The script of this name failed, for this cause.
    ScriptFailed {
        name: String,
        cause: String,
    },
    /// The environment could not be kept.
    FreezeFailed,
    /// All scripts ran.
    Done(Z),
}

/// What a call of a function came to.
pub enum CallOutcome {
    /// The script of this name failed, for this cause.
    ScriptFailed {
        name: String,
        cause: String,
    },
    /// There is no such function.
    NotFound,
    /// The call failed, for this cause.
    Failed(String),
    /// The call gave this.
    Returned(Option<Json>),
}

/// The complaint that a script failed.
pub open spec fn exec_text(name: Seq<char>, cause: Seq<char>) -> Seq<char> {
    ": exec failed: "@ + name + ": "@ + cause
}

/// The engine. `S` is whatever stands for a source, `W` for a running watch,
/// `Z` for the environment that a run leaves.
pub struct StarlarkEngine<S, W, Z> {
    pub life: Lifecycle<S, W>,
    /// The scripts that every run runs, in their order.
    pub scripts: Vec<Script>,
    /// The globals that the host set.
    pub host: StringMap<ScriptValue>,
    /// The environment that the last run left.
    pub frozen: Option<Z>,
}

impl<S, W, Z> Default for StarlarkEngine<S, W, Z> {
    fn default() -> (r: Self)
        ensures
            r.life.label@ == "starlark engine"@,
            !r.life.initialized,
            r.life.bound is None,
            r.life.watchers@ == Map::<Seq<char>, W>::empty(),
            r.life.last_error is None,
            r.scripts@ == Seq::<Script>::empty(),
            r.host@ == Map::<Seq<char>, ScriptValue>::empty(),
            r.frozen is None,
    {
        Self::new()
    }
}

impl<S, W, Z> StarlarkEngine<S, W, Z> {
    /// What the globals of the host say.
    pub open spec fn host_views(&self) -> Map<Seq<char>, ValueView> {
        crate::script::value::value_map(self.host@)
    }

    /// The engine before its first initialisation.
    pub fn new() -> (r: Self)
        ensures
            r.life.label@ == "starlark engine"@,
            !r.life.initialized,
            r.life.bound is None,
            r.life.watchers@ == Map::<Seq<char>, W>::empty(),
            r.life.last_error is None,
            r.scripts@ == Seq::<Script>::empty(),
            r.host@ == Map::<Seq<char>, ScriptValue>::empty(),
            r.frozen is None,
    {
        StarlarkEngine {
            life: Lifecycle::new("starlark engine"),
            scripts: Vec::new(),
            host: StringMap::new(),
            frozen: None,
        }
    }

    /// The name the engine is registered under.
    pub fn engine_type(&self) -> (r: &'static str)
        ensures
            r@ == NAME@,
    {
        NAME
    }

    /// What the engine offers: all that a full-featured engine does, and
    /// nothing that stands apart.
    pub fn capabilities(&self) -> (r: Capabilities)
        ensures
            r == (Capabilities {
                loader: true,
                executor: true,
                globals: true,
                functions: true,
                modules: true,
                watcher: true,
                sandbox: false,
                runtime_hooks: false,
                sync_executor: false,
                quota: false,
            }),
    {
        Capabilities::aggregate()
    }

    /// Initialises the engine: no scripts, no globals, no environment.
    pub fn init(&mut self) -> (r: Result<(), ScriptError>)
        ensures
            old(self).life.initialized ==> old(self).life.failed(
                final(self).life,
                r,
                old(self).life.complaint(": already initialized"@),
            ) && *final(self) == (StarlarkEngine { life: final(self).life, ..*old(self) }),
            !old(self).life.initialized ==> r is Ok && final(self).life == (Lifecycle {
                initialized: true,
                last_error: None,
                ..old(self).life
            }) && final(self).scripts@ == Seq::<Script>::empty() && final(self).host@ == Map::<
                Seq<char>,
                ScriptValue,
            >::empty() && final(self).frozen is None,
    {
        self.life.begin_init()?;
        self.scripts = Vec::new();
        self.host = StringMap::new();
        self.frozen = None;
        self.life.clear_error();
        Ok(())
    }

    /// Closes the engine. The watches that ran are handed back, to be ended. An
    /// engine that is not initialised cannot be closed.
    pub fn close(&mut self) -> (r: Result<Vec<W>, ScriptError>)
        ensures
            !old(self).life.initialized ==> old(self).life.failed(
                final(self).life,
                r,
                old(self).life.complaint(": not initialized"@),
            ) && *final(self) == (StarlarkEngine { life: final(self).life, ..*old(self) }),
            old(self).life.initialized ==> {
                &&& r is Ok
                &&& !final(self).life.initialized
                &&& final(self).life.bound is None
                &&& final(self).life.last_error is None
                &&& final(self).life.watchers@ == Map::<Seq<char>, W>::empty()
                &&& final(self).life.label == old(self).life.label
                &&& final(self).scripts@ == Seq::<Script>::empty()
                &&& final(self).host@ == Map::<Seq<char>, ScriptValue>::empty()
                &&& final(self).frozen is None
                &&& r->Ok_0@.len() == old(self).life.watchers.keys().len()
                &&& forall|i: int|
                    0 <= i < r->Ok_0@.len()
                        ==> #[trigger] r->Ok_0@[i]
                        == old(self).life.watchers@[old(self).life.watchers.keys()[i]]
            },
    {
        self.life.guard()?;
        let ended = self.life.close();
        self.scripts = Vec::new();
        self.host = StringMap::new();
        self.frozen = None;
        Ok(ended)
    }

    /// Adds a script to those that every run runs.
    pub fn load_string(&mut self, name: &str, code: &str) -> (r: Result<(), ScriptError>)
        ensures
            !old(self).life.initialized ==> old(self).life.failed(
                final(self).life,
                r,
                old(self).life.complaint(": not initialized"@),
            ) && final(self).scripts == old(self).scripts,
            old(self).life.initialized ==> r is Ok && final(self).life == old(self).life.recording(
                None,
            ) && script_views(final(self).scripts@) == script_views(old(self).scripts@).push(
                (name@, code@),
            ),
            final(self).host == old(self).host,
            final(self).frozen == old(self).frozen,
    {
        self.life.guard()?;
        let ghost before = script_views(self.scripts@);
        self.scripts.push(Script { name: name.to_owned(), code: code.to_owned() });
        assert(script_views(self.scripts@) =~= before.push((name@, code@)));
        self.life.clear_error();
        Ok(())
    }

    /// Begins a run of the scripts there are. There must be one.
    pub fn begin_execute(&mut self) -> (r: Result<(), ScriptError>)
        ensures
            !old(self).life.initialized ==> old(self).life.failed(
                final(self).life,
                r,
                old(self).life.complaint(": not initialized"@),
            ),
            old(self).life.initialized && old(self).scripts@.len() == 0 ==> old(self).life.failed(
                final(self).life,
                r,
                old(self).life.complaint(": no script loaded"@),
            ),
            old(self).life.initialized && old(self).scripts@.len() > 0 ==> r is Ok
                && final(self).life == old(self).life,
            *final(self) == (StarlarkEngine { life: final(self).life, ..*old(self) }),
    {
        self.life.guard()?;
        if self.scripts.len() == 0 {
            return Err(self.life.complain(": no script loaded"));
        }
        Ok(())
    }

    /// The scripts of a run, in their order: those there are and, after them,
    /// `extra`.
    pub fn scripts_with(&self, extra: &Vec<Script>) -> (r: Vec<Script>)
        ensures
            script_views(r@) == script_views(self.scripts@) + script_views(extra@),
    {
        let mut out: Vec<Script> = Vec::new();
        assert(script_views(out@) =~= Seq::empty());
        copy_scripts(&mut out, &self.scripts);
        copy_scripts(&mut out, extra);
        assert(script_views(out@) =~= script_views(self.scripts@) + script_views(extra@));
        out
    }

    /// The globals of the host, as the scripts see them.
    pub fn predeclared(&self) -> (r: Vec<(String, StarData)>)
        ensures
            dict_view(r@) == Seq::new(
                self.host.keys().len(),
                |i: int| (self.host.keys()[i], value_star(self.host_views()[self.host.keys()[i]])),
            ),
    {
        let mut out: Vec<(String, StarData)> = Vec::new();
        let n: usize = self.host.len();
        let mut i: usize = 0;
        while i < n
            invariant
                i <= n,
                n == self.host.keys().len(),
                out@.len() == i,
                forall|j: int|
                    0 <= j < i ==> (#[trigger] out@[j]).0@ == self.host.keys()[j] && out@[j].1@
                        == value_star(self.host_views()[self.host.keys()[j]]),
            decreases n - i,
        {
            let name = self.host.key_at(i).clone();
            let value = to_starlark(self.host.value_at(i));
            out.push((name, value));
            i += 1;
        }
        assert(dict_view(out@) =~= Seq::new(
            self.host.keys().len(),
            |j: int| (self.host.keys()[j], value_star(self.host_views()[self.host.keys()[j]])),
        ));
        out
    }

    fn exec_failed(&mut self, name: &str, cause: &str) -> (r: ScriptError)
        ensures
            r.says(old(self).life.complaint(exec_text(name@, cause@))),
            final(self).life == old(self).life.recording(Some(r)),
            *final(self) == (StarlarkEngine { life: final(self).life, ..*old(self) }),
    {
        let mut what = cat3(": exec failed: ", name, ": ");
        what.append(cause);
        self.life.complain(what.as_str())
    }

    /// Settles a run of the scripts there are and, after them, of `extra`. Where
    /// all ran, `extra` belongs to the scripts from now on and the environment
    /// is kept; where one failed nothing is kept. A run gives nothing back.
    pub fn settle_run(&mut self, extra: Vec<Script>, outcome: RunOutcome<Z>) -> (r: Result<
        ScriptValue,
        ScriptError,
    >)
        ensures
            match outcome {
                RunOutcome::ScriptFailed { name, cause } => old(self).life.failed(
                    final(self).life,
                    r,
                    old(self).life.complaint(exec_text(name@, cause@)),
                ) && *final(self) == (StarlarkEngine { life: final(self).life, ..*old(self) }),
                RunOutcome::FreezeFailed => old(self).life.failed(
                    final(self).life,
                    r,
                    old(self).life.complaint(": freeze failed"@),
                ) && *final(self) == (StarlarkEngine { life: final(self).life, ..*old(self) }),
                RunOutcome::Done(frozen) => r == Ok::<ScriptValue, ScriptError>(ScriptValue::Null)
                    && final(self).life == old(self).life.recording(None) && final(self).scripts@
                    == old(self).scripts@ + extra@ && final(self).host == old(self).host
                        && final(self).frozen == Some(frozen),
            },
    {
        match outcome {
            RunOutcome::ScriptFailed { name, cause } => Err(
                self.exec_failed(name.as_str(), cause.as_str()),
            ),
            RunOutcome::FreezeFailed => Err(self.life.complain(": freeze failed")),
            RunOutcome::Done(frozen) => {
                let mut extra = extra;
                self.scripts.append(&mut extra);
                self.frozen = Some(frozen);
                self.life.clear_error();
                Ok(ScriptValue::Null)
            },
        }
    }

    /// Settles a call of a function, before which all scripts ran.
    pub fn settle_call(&mut self, function: &str, outcome: CallOutcome) -> (r: Result<
        ScriptValue,
        ScriptError,
    >)
        ensures
            match outcome {
                CallOutcome::ScriptFailed { name, cause } => old(self).life.failed(
                    final(self).life,
                    r,
                    old(self).life.complaint(exec_text(name@, cause@)),
                ),
                CallOutcome::NotFound => old(self).life.failed(
                    final(self).life,
                    r,
                    old(self).life.complaint(": function not found: "@ + function@),
                ),
                CallOutcome::Failed(cause) => old(self).life.failed(
                    final(self).life,
                    r,
                    old(self).life.complaint(": call failed: "@ + function@ + ": "@ + cause@),
                ),
                CallOutcome::Returned(json) => r is Ok && r->Ok_0@ == given(json)
                    && final(self).life == old(self).life.recording(None),
            },
            *final(self) == (StarlarkEngine { life: final(self).life, ..*old(self) }),
    {
        match outcome {
            CallOutcome::ScriptFailed { name, cause } => Err(
                self.exec_failed(name.as_str(), cause.as_str()),
            ),
            CallOutcome::NotFound => {
                let what = cat(": function not found: ", function);
                Err(self.life.complain(what.as_str()))
            },
            CallOutcome::Failed(cause) => {
                let mut what = cat3(": call failed: ", function, ": ");
                what.append(cause.as_str());
                Err(self.life.complain(what.as_str()))
            },
            CallOutcome::Returned(json) => {
                self.life.clear_error();
                Ok(from_starlark(&json))
            },
        }
    }

    /// Sets a global of the host.
    pub fn register_global(&mut self, name: &str, value: ScriptValue) -> (r: Result<
        (),
        ScriptError,
    >)
        ensures
            !old(self).life.initialized ==> old(self).life.failed(
                final(self).life,
                r,
                old(self).life.complaint(": not initialized"@),
            ) && final(self).host == old(self).host,
            old(self).life.initialized ==> r is Ok && final(self).life == old(self).life.recording(
                None,
            ) && final(self).host@ == old(self).host@.insert(name@, value),
            final(self).scripts == old(self).scripts,
            final(self).frozen == old(self).frozen,
    {
        self.life.guard()?;
        self.host.insert(name.to_owned(), value);
        self.life.clear_error();
        Ok(())
    }

    /// Reads a global, which the environment of the last run may hold: what it
    /// holds goes before what the host set.
    pub fn get_global(&mut self, name: &str, found: Option<Option<Json>>) -> (r: Result<
        ScriptValue,
        ScriptError,
    >)
        ensures
            !old(self).life.initialized ==> old(self).life.failed(
                final(self).life,
                r,
                old(self).life.complaint(": not initialized"@),
            ),
            old(self).life.initialized ==> match found {
                Some(json) => r is Ok && r->Ok_0@ == given(json)
                    && final(self).life == old(self).life.recording(None),
                None => if old(self).host@.contains_key(name@) {
                    r is Ok && r->Ok_0@ == old(self).host@[name@]@
                        && final(self).life == old(self).life.recording(None)
                } else {
                    old(self).life.failed(
                        final(self).life,
                        r,
                        old(self).life.complaint(": global not found: "@ + name@),
                    )
                },
            },
            *final(self) == (StarlarkEngine { life: final(self).life, ..*old(self) }),
    {
        self.life.guard()?;
        let value = match &found {
            Some(json) => Some(from_starlark(json)),
            None => match self.host.get(name) {
                Some(value) => Some(value.clone()),
                None => None,
            },
        };
        match value {
            Some(value) => {
                self.life.clear_error();
                Ok(value)
            },
            None => {
                let what = cat(": global not found: ", name);
                Err(self.life.complain(what.as_str()))
            },
        }
    }

    /// Host functions cannot be registered: it always fails.
    pub fn register_function(&mut self) -> (r: Result<(), ScriptError>)
        ensures
            old(self).life.failed(
                final(self).life,
                r,
                old(self).life.complaint(
                    ": host functions are unavailable — starlark-rust's native-function constructor is crate-private"@,
                ),
            ),
            *final(self) == (StarlarkEngine { life: final(self).life, ..*old(self) }),
    {
        Err(
            self.life.complain(
                ": host functions are unavailable — starlark-rust's native-function constructor is crate-private",
            ),
        )
    }

    /// Registers a module: its entries become globals of the host. A module is
    /// a map.
    pub fn register_module(&mut self, name: &str, module: &ScriptValue) -> (r: Result<
        (),
        ScriptError,
    >)
        ensures
            !old(self).life.initialized ==> old(self).life.failed(
                final(self).life,
                r,
                old(self).life.complaint(": not initialized"@),
            ) && final(self).host == old(self).host,
            old(self).life.initialized && !(module@ is Entries) ==> old(self).life.failed(
                final(self).life,
                r,
                old(self).life.complaint(": module must be a map"@),
            ) && final(self).host == old(self).host,
            old(self).life.initialized && module@ is Entries ==> r is Ok
                && final(self).life == old(self).life.recording(None)
                && final(self).host_views() == crate::script::value::with_module(
                old(self).host_views(),
                name@,
                module@->Entries_0,
            ),
            final(self).scripts == old(self).scripts,
            final(self).frozen == old(self).frozen,
    {
        self.life.guard()?;
        match module {
            ScriptValue::Entries(entries) => {
                flatten_module(&mut self.host, name, entries);
                self.life.clear_error();
                Ok(())
            },
            _ => Err(self.life.complain(": module must be a map")),
        }
    }
}

/// Makes an engine, not initialised.
pub fn factory<S, W, Z>() -> (r: Result<StarlarkEngine<S, W, Z>, ScriptError>)
    ensures
        r is Ok,
        !r->Ok_0.life.initialized,
        r->Ok_0.life.label@ == "starlark engine"@,
        r->Ok_0.scripts@ == Seq::<Script>::empty(),
        r->Ok_0.host@ == Map::<Seq<char>, ScriptValue>::empty(),
        r->Ok_0.frozen is None,
{
    Ok(StarlarkEngine::new())
}

/// Registers the factory of the engine under its name. Where the name is taken
/// nothing happens.
pub fn register<F>(registry: &mut FactoryRegistry<F>, factory: F)
    ensures
        old(registry)@.contains_key(NAME@) ==> *final(registry) == *old(registry),
        !old(registry)@.contains_key(NAME@) ==> final(registry)@ == old(registry)@.insert(
            NAME@,
            factory,
        ),
{
    let _ = register_factory(registry, NAME, factory);
}

} // verus!
