//! The Lua engine.
use vstd::prelude::*;

use crate::script::engine::{
    Capabilities, Quota, QuotaController, RuntimeHookRegistrar, SandboxConfigurator,
};
use crate::script::error::ScriptError;
use crate::script::factory::{register_factory, FactoryRegistry};
use crate::script::lifecycle::Lifecycle;
use crate::script::value::{copy_bytes, ScriptValue, ValueView};
use crate::text::{cat, decode, same};

verus! {

/// The name the engine is registered under.
pub const NAME: &'static str = "lua";

/// A runtime, opaque.
#[verifier::external_type_specification]
#[verifier::external_body]
pub struct ExLua(mlua::Lua);

/// A function of a runtime, opaque.
#[verifier::external_type_specification]
#[verifier::external_body]
pub struct ExLuaFunction(mlua::Function);

/// The text that a chunk was compiled from.
pub uninterp spec fn chunk_code(chunk: mlua::Function) -> Seq<char>;

/// `mlua::Lua::load` and `mlua::Chunk::into_function`: compiles a text into a
/// chunk of the runtime, without running it. Whether there is one depends on
/// the runtime's state beside the text, its memory among it, so nothing is said
/// of that, nor of the reason where there is none.
#[verifier::external_body]
fn compile_chunk(lua: &mlua::Lua, code: &str) -> (r: Result<mlua::Function, String>)
    ensures
        r matches Ok(chunk) ==> chunk_code(chunk) == code@,
{
    lua.load(code).into_function().map_err(|err| err.to_string())
}

/// Standard libraries that can be opened one by one. The base library is always
/// there.
#[derive(Clone, Copy, Debug, PartialEq, Eq, Structural)]
pub struct LibSet {
    pub coroutine: bool,
    pub table: bool,
    pub io: bool,
    pub os: bool,
    pub string: bool,
    pub math: bool,
    pub package: bool,
}

/// The standard libraries that a runtime opens.
#[derive(Clone, Copy, Debug, PartialEq, Eq, Structural)]
pub enum OpenLibs {
    /// All that are safe.
    AllSafe,
    /// These.
    Only(LibSet),
}

/// The list names a library.
pub open spec fn names_lib(names: Seq<Seq<char>>, lib: Seq<char>) -> bool {
    names.contains(lib)
}

/// The libraries that a list of names opens. An empty list opens all; a name
/// that stands for no library opens none.
pub open spec fn libs_named(names: Seq<Seq<char>>) -> OpenLibs {
    if names.len() == 0 {
        OpenLibs::AllSafe
    } else {
        OpenLibs::Only(
            LibSet {
                coroutine: names_lib(names, "coroutine"@),
                table: names_lib(names, "table"@),
                io: names_lib(names, "io"@),
                os: names_lib(names, "os"@),
                string: names_lib(names, "string"@),
                math: names_lib(names, "math"@),
                package: names_lib(names, "package"@),
            },
        )
    }
}

/// A list of names opens the libraries that it names and no others, whatever
/// else it holds and in whatever order; an empty one opens all that are safe.
pub proof fn named_libraries_are_opened(names: Seq<Seq<char>>)
    ensures
        names.len() == 0 <==> libs_named(names) == OpenLibs::AllSafe,
        libs_named(names) matches OpenLibs::Only(libs) ==> {
            &&& libs.coroutine <==> names.contains("coroutine"@)
            &&& libs.table <==> names.contains("table"@)
            &&& libs.io <==> names.contains("io"@)
            &&& libs.os <==> names.contains("os"@)
            &&& libs.string <==> names.contains("string"@)
            &&& libs.math <==> names.contains("math"@)
            &&& libs.package <==> names.contains("package"@)
        },
{
}

fn lists(names: &Vec<String>, lib: &str) -> (r: bool)
    ensures
        r == names_lib(crate::text::texts(names@), lib@),
{
    let mut i: usize = 0;
    while i < names.len()
        invariant
            i <= names@.len(),
            forall|j: int| 0 <= j < i ==> (#[trigger] names@[j])@ != lib@,
        decreases names@.len() - i,
    {
        if same(names[i].as_str(), lib) {
            assert(crate::text::texts(names@)[i as int] == lib@);
            return true;
        }
        i += 1;
    }
    proof {
        if crate::text::texts(names@).contains(lib@) {
            let j = choose|j: int|
                0 <= j < crate::text::texts(names@).len() && crate::text::texts(names@)[j] == lib@;
            assert(names@[j]@ == lib@);
        }
    }
    false
}

/// The libraries that a list of names opens.
pub fn std_lib_for(names: &Vec<String>) -> (r: OpenLibs)
    ensures
        r == libs_named(crate::text::texts(names@)),
{
    if names.len() == 0 {
        return OpenLibs::AllSafe;
    }
    OpenLibs::Only(
        LibSet {
            coroutine: lists(names, "coroutine"),
            table: lists(names, "table"),
            io: lists(names, "io"),
            os: lists(names, "os"),
            string: lists(names, "string"),
            math: lists(names, "math"),
            package: lists(names, "package"),
        },
    )
}

/// A key of a table.
#[derive(Debug, PartialEq, Eq)]
pub enum LuaKey {
    /// A string, which may hold any bytes.
    Text(Vec<u8>),
    /// An integer, counted from one.
    Index(u64),
    /// Anything else.
    Other,
}

/// A value of the runtime, as data. A table is what was assigned to it, one
/// key after the other; assigning nil leaves nothing.
#[derive(Debug, PartialEq)]
pub enum LuaData {
    Nil,
    Bool(bool),
    Int(i64),
    /// A double-precision number, by its bits.
    Number(u64),
    /// A string, which may hold any bytes.
    Text(Vec<u8>),
    Table(Vec<(LuaKey, LuaData)>),
    /// What holds no data: a function, a thread, anything of the host.
    Opaque,
}

/// What a key says.
#[verifier::ext_equal]
pub enum LuaKeyView {
    Text(Seq<u8>),
    Index(int),
    Other,
}

/// What a value says.
#[verifier::ext_equal]
pub enum LuaView {
    Nil,
    Bool(bool),
    Int(i64),
    Number(u64),
    Text(Seq<u8>),
    Table(Seq<(LuaKeyView, LuaView)>),
    Opaque,
}

/// What a key says.
pub open spec fn key_view(k: LuaKey) -> LuaKeyView {
    match k {
        LuaKey::Text(x) => LuaKeyView::Text(x@),
        LuaKey::Index(x) => LuaKeyView::Index(x as int),
        LuaKey::Other => LuaKeyView::Other,
    }
}

/// What the entries of a table say, one by one.
pub open spec fn table_view(entries: Seq<(LuaKey, LuaData)>) -> Seq<(LuaKeyView, LuaView)>
    decreases entries,
{
    Seq::new(
        entries.len(),
        |i: int|
            if 0 <= i < entries.len() {
                (key_view(entries[i].0), lua_view(entries[i].1))
            } else {
                (LuaKeyView::Other, LuaView::Nil)
            },
    )
}

/// What a value says.
pub open spec fn lua_view(v: LuaData) -> LuaView
    decreases v,
{
    match v {
        LuaData::Nil => LuaView::Nil,
        LuaData::Bool(x) => LuaView::Bool(x),
        LuaData::Int(x) => LuaView::Int(x),
        LuaData::Number(x) => LuaView::Number(x),
        LuaData::Text(x) => LuaView::Text(x@),
        LuaData::Table(x) => LuaView::Table(table_view(x@)),
        LuaData::Opaque => LuaView::Opaque,
    }
}

impl View for LuaData {
    type V = LuaView;

    open spec fn view(&self) -> LuaView {
        lua_view(*self)
    }
}

/// What a value says is what it holds: a table says what its entries do, one by
/// one and in their order, each under its own key.
pub proof fn data_says_what_it_holds(v: LuaData)
    ensures
        match v {
            LuaData::Nil => v@ == LuaView::Nil,
            LuaData::Bool(x) => v@ == LuaView::Bool(x),
            LuaData::Int(x) => v@ == LuaView::Int(x),
            LuaData::Number(x) => v@ == LuaView::Number(x),
            LuaData::Text(x) => v@ == LuaView::Text(x@),
            LuaData::Opaque => v@ == LuaView::Opaque,
            LuaData::Table(x) => v@ matches LuaView::Table(l) && l.len() == x@.len()
                && forall|i: int|
                #![trigger l[i]]
                0 <= i < x@.len() ==> l[i].1 == x@[i].1@ && match x@[i].0 {
                    LuaKey::Text(name) => l[i].0 == LuaKeyView::Text(name@),
                    LuaKey::Index(n) => l[i].0 == LuaKeyView::Index(n as int),
                    LuaKey::Other => l[i].0 == LuaKeyView::Other,
                },
        },
{
}

/// An unsigned integer read as a signed one of the same bits.
pub open spec fn wrapped(n: u64) -> i64 {
    if n <= i64::MAX {
        n as i64
    } else {
        (n - 0x1_0000_0000_0000_0000) as i64
    }
}

/// A list as the entries of a table, counted from one.
pub open spec fn items_lua(items: Seq<ValueView>) -> Seq<(LuaKeyView, LuaView)>
    decreases items,
{
    Seq::new(
        items.len(),
        |i: int|
            if 0 <= i < items.len() {
                (LuaKeyView::Index(i + 1), value_lua(items[i]))
            } else {
                (LuaKeyView::Other, LuaView::Nil)
            },
    )
}

/// Entries as the entries of a table.
pub open spec fn entries_lua(entries: Seq<(Seq<char>, ValueView)>) -> Seq<(LuaKeyView, LuaView)>
    decreases entries,
{
    Seq::new(
        entries.len(),
        |i: int|
            if 0 <= i < entries.len() {
                (
                    LuaKeyView::Text(vstd::utf8::encode_utf8(entries[i].0)),
                    value_lua(entries[i].1),
                )
            } else {
                (LuaKeyView::Other, LuaView::Nil)
            },
    )
}

/// A script value in the runtime. An unsigned integer keeps its bits.
pub open spec fn value_lua(v: ValueView) -> LuaView
    decreases v,
{
    match v {
        ValueView::Null => LuaView::Nil,
        ValueView::Bool(x) => LuaView::Bool(x),
        ValueView::Int(x) => LuaView::Int(x),
        ValueView::UInt(x) => LuaView::Int(wrapped(x)),
        ValueView::Float(x) => LuaView::Number(x),
        ValueView::Text(x) => LuaView::Text(vstd::utf8::encode_utf8(x)),
        ValueView::Bytes(x) => LuaView::Text(x),
        ValueView::Array(x) => LuaView::Table(items_lua(x)),
        ValueView::Entries(x) => LuaView::Table(entries_lua(x)),
    }
}

/// A key is a text.
pub open spec fn is_text_key(k: LuaKeyView) -> bool {
    k is Text && vstd::utf8::valid_utf8(k->Text_0)
}

/// The entries of a table under texts; others are left out.
pub open spec fn table_value(entries: Seq<(LuaKeyView, LuaView)>) -> Seq<(Seq<char>, ValueView)>
    decreases entries,
{
    if entries.len() == 0 {
        Seq::empty()
    } else {
        let head = entries.take(entries.len() - 1);
        let last = entries[entries.len() - 1];
        if is_text_key(last.0) {
            table_value(head).push((vstd::utf8::decode_utf8(last.0->Text_0), lua_value(last.1)))
        } else {
            table_value(head)
        }
    }
}

/// A value of the runtime as a script value. A string is a text where it is
/// UTF-8, else bytes; what holds no data is null.
pub open spec fn lua_value(v: LuaView) -> ValueView
    decreases v,
{
    match v {
        LuaView::Nil => ValueView::Null,
        LuaView::Bool(x) => ValueView::Bool(x),
        LuaView::Int(x) => ValueView::Int(x),
        LuaView::Number(x) => ValueView::Float(x),
        LuaView::Text(x) => if vstd::utf8::valid_utf8(x) {
            ValueView::Text(vstd::utf8::decode_utf8(x))
        } else {
            ValueView::Bytes(x)
        },
        LuaView::Table(x) => ValueView::Entries(table_value(x)),
        LuaView::Opaque => ValueView::Null,
    }
}

fn text_bytes(s: &str) -> (r: Vec<u8>)
    ensures
        r@ == vstd::utf8::encode_utf8(s@),
{
    let bytes = s.as_bytes();
    let mut out: Vec<u8> = Vec::new();
    let mut i: usize = 0;
    while i < bytes.len()
        invariant
            i <= bytes@.len(),
            out@ == bytes@.take(i as int),
        decreases bytes@.len() - i,
    {
        out.push(bytes[i]);
        i += 1;
        assert(out@ =~= bytes@.take(i as int));
    }
    assert(bytes@.take(i as int) =~= bytes@);
    out
}

/// A script value in the runtime.
pub fn to_lua(value: &ScriptValue) -> (r: LuaData)
    ensures
        r@ == value_lua(value@),
    decreases value,
{
    match value {
        ScriptValue::Null => LuaData::Nil,
        ScriptValue::Bool(v) => LuaData::Bool(*v),
        ScriptValue::Int(v) => LuaData::Int(*v),
        ScriptValue::UInt(v) => if *v <= i64::MAX as u64 {
            LuaData::Int(*v as i64)
        } else {
            let over: i64 = (u64::MAX - *v) as i64;
            LuaData::Int(-over - 1)
        },
        ScriptValue::Float(v) => LuaData::Number(*v),
        ScriptValue::Text(v) => LuaData::Text(text_bytes(v.as_str())),
        ScriptValue::Bytes(v) => LuaData::Text(copy_bytes(v)),
        ScriptValue::Array(items) => {
            let mut out: Vec<(LuaKey, LuaData)> = Vec::new();
            let mut i: usize = 0;
            while i < items.len()
                invariant
                    i <= items@.len(),
                    out@.len() == i,
                    *value == ScriptValue::Array(*items),
                    forall|j: int|
                        0 <= j < i ==> key_view((#[trigger] out@[j]).0) == LuaKeyView::Index(j + 1)
                            && out@[j].1@ == value_lua(items@[j]@),
                decreases items@.len() - i,
            {
                assert(decreases_to!(*value => value->Array_0));
                assert(decreases_to!(*items => items@));
                assert(decreases_to!(items@ => items@[i as int]));
                let item = to_lua(&items[i]);
                assert(i < items@.len());
                i += 1;
                out.push((LuaKey::Index(i as u64), item));
            }
            assert(table_view(out@) =~= items_lua(crate::script::value::views(items@)));
            LuaData::Table(out)
        },
        ScriptValue::Entries(entries) => {
            let mut out: Vec<(LuaKey, LuaData)> = Vec::new();
            let mut i: usize = 0;
            while i < entries.len()
                invariant
                    i <= entries@.len(),
                    out@.len() == i,
                    *value == ScriptValue::Entries(*entries),
                    forall|j: int|
                        0 <= j < i ==> key_view((#[trigger] out@[j]).0) == LuaKeyView::Text(
                            vstd::utf8::encode_utf8(entries@[j].0@),
                        ) && out@[j].1@ == value_lua(entries@[j].1@),
                decreases entries@.len() - i,
            {
                assert(decreases_to!(*value => value->Entries_0));
                assert(decreases_to!(*entries => entries@));
                assert(decreases_to!(entries@ => entries@[i as int]));
                assert(decreases_to!(entries@[i as int] => entries@[i as int].1));
                let item = to_lua(&entries[i].1);
                out.push((LuaKey::Text(text_bytes(entries[i].0.as_str())), item));
                i += 1;
            }
            assert(table_view(out@) =~= entries_lua(
                crate::script::value::entry_views(entries@),
            ));
            LuaData::Table(out)
        },
    }
}

/// A value of the runtime as a script value.
pub fn from_lua(value: &LuaData) -> (r: ScriptValue)
    ensures
        r@ == lua_value(value@),
    decreases value,
{
    match value {
        LuaData::Nil => ScriptValue::Null,
        LuaData::Bool(v) => ScriptValue::Bool(*v),
        LuaData::Int(v) => ScriptValue::Int(*v),
        LuaData::Number(v) => ScriptValue::Float(*v),
        LuaData::Text(v) => {
            let bytes = copy_bytes(v);
            match decode(copy_bytes(v)) {
                Some(text) => ScriptValue::Text(text),
                None => ScriptValue::Bytes(bytes),
            }
        },
        LuaData::Table(entries) => {
            let mut out: Vec<(String, ScriptValue)> = Vec::new();
            let mut i: usize = 0;
            assert(table_view(entries@).take(0) =~= Seq::empty());
            assert(crate::script::value::entry_views(out@) =~= Seq::empty());
            while i < entries.len()
                invariant
                    i <= entries@.len(),
                    *value == LuaData::Table(*entries),
                    crate::script::value::entry_views(out@) == table_value(
                        table_view(entries@).take(i as int),
                    ),
                decreases entries@.len() - i,
            {
                assert(decreases_to!(*value => value->Table_0));
                assert(decreases_to!(*entries => entries@));
                assert(decreases_to!(entries@ => entries@[i as int]));
                assert(decreases_to!(entries@[i as int] => entries@[i as int].1));
                let ghost all = table_view(entries@);
                let ghost before = out@;
                proof {
                    assert(all.take(i + 1).take(i as int) =~= all.take(i as int));
                    assert(all.take(i + 1)[i as int] == all[i as int]);
                }
                if let LuaKey::Text(bytes) = &entries[i].0 {
                    if let Some(name) = decode(copy_bytes(bytes)) {
                        let item = from_lua(&entries[i].1);
                        out.push((name, item));
                        assert(crate::script::value::entry_views(out@)
                            =~= crate::script::value::entry_views(before).push((name@, item@)));
                    }
                }
                i += 1;
            }
            assert(table_view(entries@).take(i as int) =~= table_view(entries@));
            ScriptValue::Entries(out)
        },
        LuaData::Opaque => ScriptValue::Null,
    }
}

/// A value that a table holds as it is: texts, numbers that are not unsigned,
/// and maps of such values, without null among them.
pub open spec fn crosses(v: ValueView) -> bool
    decreases v,
{
    match v {
        ValueView::Bool(_) => true,
        ValueView::Int(_) => true,
        ValueView::Float(_) => true,
        ValueView::Text(_) => true,
        ValueView::Entries(x) => forall|i: int|
            0 <= i < x.len() ==> crosses((#[trigger] x[i]).1),
        _ => false,
    }
}

/// What stands under a key of a table: what was assigned to it last, nil where
/// nothing was.
pub open spec fn under(table: Seq<(LuaKeyView, LuaView)>, key: LuaKeyView) -> LuaView
    decreases table.len(),
{
    if table.len() == 0 {
        LuaView::Nil
    } else if table.last().0 == key {
        table.last().1
    } else {
        under(table.drop_last(), key)
    }
}

proof fn lemma_under(table: Seq<(LuaKeyView, LuaView)>, key: LuaKeyView, k: int)
    requires
        -1 <= k < table.len(),
        k >= 0 ==> table[k].0 == key,
        forall|i: int| k < i < table.len() ==> (#[trigger] table[i]).0 != key,
    ensures
        under(table, key) == (if k >= 0 {
            table[k].1
        } else {
            LuaView::Nil
        }),
    decreases table.len(),
{
    if table.len() > 0 && k < table.len() - 1 {
        assert(table[table.len() - 1].0 != key);
        lemma_under(table.drop_last(), key, k);
    }
}

/// A list becomes a table with as many entries, under the integers from one on,
/// no two of them alike: what stands under a position counted from one is that
/// item, and under every other integer stands nothing.
pub proof fn list_is_indexed_from_one(items: Seq<ValueView>)
    ensures
        value_lua(ValueView::Array(items)) matches LuaView::Table(table) && {
            &&& table.len() == items.len()
            &&& forall|i: int|
                #![trigger table[i]]
                0 <= i < items.len() ==> table[i].0 == LuaKeyView::Index(i + 1) && table[i].1
                    == value_lua(items[i])
            &&& forall|i: int, j: int|
                #![trigger table[i], table[j]]
                0 <= i < j < items.len() ==> table[i].0 != table[j].0
            &&& forall|i: int|
                #![trigger items[i]]
                0 <= i < items.len() ==> under(table, LuaKeyView::Index(i + 1)) == value_lua(
                    items[i],
                )
            &&& forall|n: int|
                #![trigger under(table, LuaKeyView::Index(n))]
                n < 1 || n > items.len() ==> under(table, LuaKeyView::Index(n)) == LuaView::Nil
        },
{
    let table = items_lua(items);
    assert forall|i: int|
        #![trigger items[i]]
        0 <= i < items.len() implies under(table, LuaKeyView::Index(i + 1)) == value_lua(
        items[i],
    ) by {
        lemma_under(table, LuaKeyView::Index(i + 1), i);
        assert(table[i].1 == value_lua(items[i]));
    }
    assert forall|n: int|
        #![trigger under(table, LuaKeyView::Index(n))]
        n < 1 || n > items.len() implies under(table, LuaKeyView::Index(n)) == LuaView::Nil by {
        lemma_under(table, LuaKeyView::Index(n), -1);
    }
}

/// Named entries become a table with as many, each under the bytes of its name
/// and in the same order: what stands under a name is the last entry of it.
pub proof fn entries_are_found_by_name(entries: Seq<(Seq<char>, ValueView)>)
    ensures
        value_lua(ValueView::Entries(entries)) matches LuaView::Table(table) && {
            &&& table.len() == entries.len()
            &&& forall|i: int|
                #![trigger table[i]]
                0 <= i < entries.len() ==> table[i].0 == LuaKeyView::Text(
                    vstd::utf8::encode_utf8(entries[i].0),
                ) && table[i].1 == value_lua(entries[i].1)
            &&& forall|i: int|
                #![trigger entries[i]]
                0 <= i < entries.len() && (forall|j: int|
                    i < j < entries.len() ==> (#[trigger] entries[j]).0 != entries[i].0) ==> under(
                    table,
                    LuaKeyView::Text(vstd::utf8::encode_utf8(entries[i].0)),
                ) == value_lua(entries[i].1)
        },
{
    let table = entries_lua(entries);
    assert forall|i: int|
        #![trigger entries[i]]
        0 <= i < entries.len() && (forall|j: int|
            i < j < entries.len() ==> (#[trigger] entries[j]).0
                != entries[i].0) implies under(
        table,
        LuaKeyView::Text(vstd::utf8::encode_utf8(entries[i].0)),
    ) == value_lua(entries[i].1) by {
        let key = LuaKeyView::Text(vstd::utf8::encode_utf8(entries[i].0));
        vstd::utf8::encode_utf8_decode_utf8(entries[i].0);
        assert forall|j: int| i < j < table.len() implies (#[trigger] table[j]).0 != key by {
            assert(entries[j].0 != entries[i].0);
            vstd::utf8::encode_utf8_decode_utf8(entries[j].0);
        }
        assert(table[i].0 == key);
        lemma_under(table, key, i);
    }
}

/// What is no list and has no entries crosses as the value of its own kind: a
/// text by its bytes, an unsigned integer by the signed one that differs from
/// it by a whole number of times two to the power of 64.
pub proof fn plain_values_keep_their_kind(v: ValueView)
    ensures
        match v {
            ValueView::Null => value_lua(v) == LuaView::Nil,
            ValueView::Bool(x) => value_lua(v) == LuaView::Bool(x),
            ValueView::Int(x) => value_lua(v) == LuaView::Int(x),
            ValueView::UInt(x) => value_lua(v) matches LuaView::Int(y) && (y == x || y
                == x - 0x1_0000_0000_0000_0000),
            ValueView::Float(x) => value_lua(v) == LuaView::Number(x),
            ValueView::Text(x) => value_lua(v) matches LuaView::Text(y)
                && vstd::utf8::valid_utf8(y) && vstd::utf8::decode_utf8(y) == x,
            ValueView::Bytes(x) => value_lua(v) == LuaView::Text(x),
            _ => value_lua(v) is Table,
        },
{
    if let ValueView::Text(x) = v {
        vstd::utf8::encode_utf8_decode_utf8(x);
        vstd::utf8::encode_utf8_valid_utf8(x);
    }
}

/// What a runtime hands back is read by its kind: the entries of a table under
/// texts are read once each and in their order, those under other keys are left
/// out, a string is a text where it is UTF-8 and bytes where it is not, and
/// what holds no data is null.
pub proof fn runtime_values_are_read_by_kind(v: LuaView)
    ensures
        match v {
            LuaView::Nil => lua_value(v) == ValueView::Null,
            LuaView::Opaque => lua_value(v) == ValueView::Null,
            LuaView::Bool(x) => lua_value(v) == ValueView::Bool(x),
            LuaView::Int(x) => lua_value(v) == ValueView::Int(x),
            LuaView::Number(x) => lua_value(v) == ValueView::Float(x),
            LuaView::Text(x) => if vstd::utf8::valid_utf8(x) {
                lua_value(v) matches ValueView::Text(y) && vstd::utf8::encode_utf8(y) == x
            } else {
                lua_value(v) == ValueView::Bytes(x)
            },
            LuaView::Table(x) => lua_value(v) matches ValueView::Entries(y)
                && crate::listing::picks(
                y,
                x,
                |e: (LuaKeyView, LuaView)| e.0 is Text && vstd::utf8::valid_utf8(e.0->Text_0),
                |e: (LuaKeyView, LuaView)|
                    (vstd::utf8::decode_utf8(e.0->Text_0), lua_value(e.1)),
            ),
        },
{
    match v {
        LuaView::Text(x) => {
            if vstd::utf8::valid_utf8(x) {
                vstd::utf8::decode_utf8_encode_utf8(x);
            }
        },
        LuaView::Table(x) => {
            lemma_table_picks(x);
        },
        _ => {},
    }
}

proof fn lemma_table_picks(x: Seq<(LuaKeyView, LuaView)>)
    ensures
        crate::listing::picks(
            table_value(x),
            x,
            |e: (LuaKeyView, LuaView)| e.0 is Text && vstd::utf8::valid_utf8(e.0->Text_0),
            |e: (LuaKeyView, LuaView)| (vstd::utf8::decode_utf8(e.0->Text_0), lua_value(e.1)),
        ),
    decreases x.len(),
{
    let named = |e: (LuaKeyView, LuaView)|
        e.0 is Text && vstd::utf8::valid_utf8(e.0->Text_0);
    let entry = |e: (LuaKeyView, LuaView)|
        (vstd::utf8::decode_utf8(e.0->Text_0), lua_value(e.1));
    if x.len() == 0 {
        crate::listing::nothing_is_picked(table_value(x), x, named, entry);
    } else {
        assert(x.take(x.len() - 1) =~= x.drop_last());
        lemma_table_picks(x.drop_last());
        crate::listing::picking_one_more(table_value(x.drop_last()), x, named, entry);
    }
}

proof fn lemma_table_reads_back(entries: Seq<(Seq<char>, ValueView)>)
    requires
        forall|i: int|
            0 <= i < entries.len() ==> lua_value(value_lua((#[trigger] entries[i]).1))
                == entries[i].1,
    ensures
        table_value(entries_lua(entries)) == entries,
    decreases entries.len(),
{
    let all = entries_lua(entries);
    if entries.len() == 0 {
        assert(table_value(all) =~= entries);
    } else {
        let n = entries.len() - 1;
        let head = entries.take(n);
        assert(all.take(n) =~= entries_lua(head));
        assert forall|i: int| 0 <= i < head.len() implies lua_value(
            value_lua((#[trigger] head[i]).1),
        ) == head[i].1 by {
            assert(head[i] == entries[i]);
        }
        lemma_table_reads_back(head);
        vstd::utf8::encode_utf8_valid_utf8(entries[n].0);
        vstd::utf8::encode_utf8_decode_utf8(entries[n].0);
        assert(all[n].0 == LuaKeyView::Text(vstd::utf8::encode_utf8(entries[n].0)));
        assert(all[n].1 == value_lua(entries[n].1));
        assert(table_value(all) =~= head.push(entries[n]));
        assert(head.push(entries[n]) =~= entries);
    }
}

/// A value that a table holds as it is comes back as it went in.
pub proof fn value_reads_back(v: ValueView)
    requires
        crosses(v),
    ensures
        lua_value(value_lua(v)) == v,
    decreases v,
{
    match v {
        ValueView::Text(x) => {
            vstd::utf8::encode_utf8_valid_utf8(x);
            vstd::utf8::encode_utf8_decode_utf8(x);
        },
        ValueView::Entries(x) => {
            assert forall|i: int| 0 <= i < x.len() implies lua_value(
                value_lua((#[trigger] x[i]).1),
            ) == x[i].1 by {
                value_reads_back(x[i].1);
            }
            lemma_table_reads_back(x);
        },
        _ => {},
    }
}

/// No text is a key twice, in the value or in what it holds.
pub open spec fn is_lua(v: LuaView) -> bool
    decreases v,
{
    match v {
        LuaView::Table(x) => keys_once(x) && forall|i: int|
            0 <= i < x.len() ==> is_lua((#[trigger] x[i]).1),
        _ => true,
    }
}

/// No text is a key twice.
pub open spec fn keys_once(entries: Seq<(LuaKeyView, LuaView)>) -> bool {
    forall|a: int, b: int|
        0 <= a < b < entries.len() && entries[a].0 is Text ==> (#[trigger] entries[a]).0 != (
        #[trigger] entries[b]).0
}

/// A value in which no name occurs twice becomes tables in which no text is a
/// key twice.
pub proof fn tables_keep_names_apart(v: ValueView)
    requires
        crate::script::value::is_value(v),
    ensures
        is_lua(value_lua(v)),
    decreases v,
{
    match v {
        ValueView::Array(x) => {
            let items = items_lua(x);
            assert forall|i: int| 0 <= i < items.len() implies is_lua((#[trigger] items[i]).1) by {
                tables_keep_names_apart(x[i]);
            }
        },
        ValueView::Entries(x) => {
            let entries = entries_lua(x);
            assert forall|i: int| 0 <= i < entries.len() implies is_lua(
                (#[trigger] entries[i]).1,
            ) by {
                tables_keep_names_apart(x[i].1);
            }
            assert forall|a: int, b: int| 0 <= a < b < entries.len() implies (
            #[trigger] entries[a]).0 != (#[trigger] entries[b]).0 by {
                assert(x[a].0 != x[b].0);
                vstd::utf8::encode_utf8_decode_utf8(x[a].0);
                vstd::utf8::encode_utf8_decode_utf8(x[b].0);
            }
        },
        _ => {},
    }
}

/// An entry of a table's value comes from an entry of the table.
spec fn comes_from_any(entry: (Seq<char>, ValueView), entries: Seq<(LuaKeyView, LuaView)>) -> bool {
    exists|i: int| comes_from(entry, entries, i)
}

/// An entry of a table's value comes from this entry of the table.
spec fn comes_from(
    entry: (Seq<char>, ValueView),
    entries: Seq<(LuaKeyView, LuaView)>,
    i: int,
) -> bool {
    &&& 0 <= i < entries.len()
    &&& is_text_key(entries[i].0)
    &&& entry.0 == vstd::utf8::decode_utf8(entries[i].0->Text_0)
    &&& entry.1 == lua_value(entries[i].1)
}

proof fn lemma_table_names(entries: Seq<(LuaKeyView, LuaView)>)
    requires
        keys_once(entries),
    ensures
        crate::script::value::names_once(table_value(entries)),
        forall|i: int|
            0 <= i < table_value(entries).len() ==> comes_from_any(
                #[trigger] table_value(entries)[i],
                entries,
            ),
    decreases entries.len(),
{
    let all = table_value(entries);
    if entries.len() > 0 {
        let n = entries.len() - 1;
        let head = entries.take(n);
        let some = table_value(head);
        assert forall|a: int, b: int|
            0 <= a < b < head.len() && head[a].0 is Text implies (#[trigger] head[a]).0 != (
        #[trigger] head[b]).0 by {
            assert(head[a] == entries[a] && head[b] == entries[b]);
        }
        lemma_table_names(head);
        assert forall|i: int| 0 <= i < all.len() implies comes_from_any(
            #[trigger] all[i],
            entries,
        ) by {
            if i < some.len() {
                assert(all[i] == some[i]);
                assert(comes_from_any(some[i], head));
                let j = choose|j: int| comes_from(some[i], head, j);
                assert(head[j] == entries[j]);
                assert(comes_from(all[i], entries, j));
            } else {
                assert(comes_from(all[i], entries, n));
            }
        }
        if is_text_key(entries[n].0) {
            assert forall|a: int, b: int| 0 <= a < b < all.len() implies (#[trigger] all[a]).0 != (
            #[trigger] all[b]).0 by {
                if b < some.len() {
                    assert(all[a] == some[a] && all[b] == some[b]);
                } else {
                    assert(comes_from_any(some[a], head));
                    let j = choose|j: int| comes_from(some[a], head, j);
                    assert(all[a] == some[a]);
                    assert(head[j] == entries[j]);
                    assert(entries[j].0 != entries[n].0);
                    vstd::utf8::decode_utf8_encode_utf8(entries[j].0->Text_0);
                    vstd::utf8::decode_utf8_encode_utf8(entries[n].0->Text_0);
                }
            }
        }
    }
}

/// Tables in which no text is a key twice come back as a value in which no name
/// occurs twice.
pub proof fn values_keep_keys_apart(v: LuaView)
    requires
        is_lua(v),
    ensures
        crate::script::value::is_value(lua_value(v)),
    decreases v,
{
    if let LuaView::Table(x) = v {
        let entries = table_value(x);
        lemma_table_names(x);
        assert forall|i: int| 0 <= i < entries.len() implies crate::script::value::is_value(
            (#[trigger] entries[i]).1,
        ) by {
            assert(comes_from_any(entries[i], x));
            let j = choose|j: int| comes_from(entries[i], x, j);
            values_keep_keys_apart(x[j].1);
        }
    }
}

/// The count of instructions that a run has left.
pub struct Meter {
    left: i64,
}

impl Meter {
    /// The instructions left; none or fewer once the budget is used up.
    pub closed spec fn remaining(&self) -> int {
        self.left as int
    }

    /// The count for a budget, as far as 63 bits can hold it.
    pub fn new(budget: u64) -> (r: Self)
        ensures
            r.remaining() == whole(budget),
    {
        if budget > i64::MAX as u64 {
            return Meter { left: i64::MAX };
        }
        Meter { left: budget as i64 }
    }

    /// Counts an instruction. Says whether the run must be ended: the
    /// instruction that uses up the budget ends it, and so does every later
    /// one.
    pub fn tick(&mut self) -> (r: bool)
        ensures
            r == (final(self).remaining() <= 0),
            old(self).remaining() > i64::MIN ==> forall|later: nat|
                trips(old(self).remaining(), later + 1) == (r || #[trigger] trips(
                    final(self).remaining(),
                    later,
                )),
            old(self).remaining() > i64::MIN ==> final(self).remaining() == old(self).remaining()
                - 1,
            old(self).remaining() <= 0 ==> r,
    {
        if self.left > i64::MIN {
            self.left = self.left - 1;
        }
        proof {
            let (was, now) = (old(self).left as int, self.left as int);
            if was > i64::MIN {
                assert forall|later: nat|
                    trips(was, later + 1) == (now <= 0 || #[trigger] trips(now, later)) by {
                    assert((later + 1 - 1) as nat == later);
                }
            }
        }
        self.left <= 0
    }
}

/// A run of so many instructions is ended, so much of the budget being left.
pub open spec fn trips(remaining: int, instructions: nat) -> bool
    decreases instructions,
{
    if instructions == 0 {
        false
    } else {
        remaining - 1 <= 0 || trips(remaining - 1, (instructions - 1) as nat)
    }
}

/// Each run has the whole budget: one that takes fewer instructions is not
/// ended, however many ran before it, and one that takes as many or more is.
/// The budget counts as far as a count can hold it. Without a bound on the time
/// no run overruns that.
pub proof fn run_within_budget_is_not_ended(run: Run, quota: Quota, instructions: nat)
    requires
        run.is_fresh(quota),
        quota.max_instructions is Some,
        quota.max_instructions->0 > 0,
    ensures
        trips(run.meter->0.remaining(), instructions) == (instructions >= whole(
            quota.max_instructions->0,
        )),
        run.quota.timeout is None ==> forall|elapsed: u128| !#[trigger] run.quota.overran(elapsed),
{
    lemma_trips(run.meter->0.remaining(), instructions);
}

/// A budget that a count can hold counts as it is, and a larger one as the
/// largest. A run whose budget is zero is ended by its first instruction, and no
/// run is ended before its first.
pub proof fn budget_counts_as_it_is(budget: u64, instructions: nat)
    ensures
        budget <= i64::MAX ==> whole(budget) == budget,
        budget > i64::MAX ==> whole(budget) == i64::MAX,
        trips(0, instructions) <==> instructions > 0,
{
}

/// A run that begins goes by the budget it was given, and counts instructions
/// exactly where those are bounded.
pub proof fn unbounded_run_is_not_counted(run: Run, quota: Quota)
    requires
        run.is_fresh(quota),
    ensures
        run.quota == quota,
        quota.max_instructions is None <==> run.meter is None,
        quota.max_instructions matches Some(n) ==> n <= i64::MAX ==> run.meter->0.remaining() == n,
{
}

proof fn lemma_trips(remaining: int, instructions: nat)
    requires
        remaining > 0,
    ensures
        trips(remaining, instructions) == (instructions >= remaining),
    decreases instructions,
{
    if instructions > 0 && remaining > 1 {
        lemma_trips(remaining - 1, (instructions - 1) as nat);
    }
}

/// A budget in instructions, as far as a count can hold it.
pub open spec fn whole(budget: u64) -> int {
    if budget > i64::MAX {
        i64::MAX as int
    } else {
        budget as int
    }
}

/// What a run that begins goes by.
pub struct Run {
    /// The budget.
    pub quota: Quota,
    /// The count of its instructions, where they are bounded.
    pub meter: Option<Meter>,
}

impl Run {
    /// The run has its whole budget left.
    pub open spec fn is_fresh(&self, quota: Quota) -> bool {
        &&& self.quota == quota
        &&& match quota.max_instructions {
            Some(n) => self.meter is Some && self.meter->0.remaining() == whole(n),
            None => self.meter is None,
        }
    }
}

/// What a global holds that is to be called.
pub enum Callee {
    /// A function.
    Function,
    /// Anything else.
    Other,
    /// It could not be read.
    Failed(String),
}

/// The engine beside its runtime. `S` is whatever stands for a source, `W` for
/// a running watch, `H` for a runtime hook, `C` for a compiled chunk.
pub struct LuaEngine<S, W, H, C> {
    pub life: Lifecycle<S, W>,
    /// The names of the libraries to open.
    pub libs: Vec<String>,
    /// The chunks loaded.
    pub chunks: Vec<C>,
    /// The hooks that wait for the runtime.
    pub hooks: Vec<H>,
    /// The budget of the next run.
    pub quota: Quota,
}

impl<S, W, H, C> QuotaController for LuaEngine<S, W, H, C> {
    open spec fn budget(&self) -> Quota {
        self.quota
    }

    fn set_quota(&mut self, quota: Quota)
        ensures
            *final(self) == (LuaEngine { quota, ..*old(self) }),
    {
        self.quota = quota;
    }
}

impl<S, W, H, C> SandboxConfigurator for LuaEngine<S, W, H, C> {
    open spec fn open_libs(&self) -> Seq<Seq<char>> {
        crate::text::texts(self.libs@)
    }

    fn set_open_libs(&mut self, libs: &[&str])
        ensures
            *final(self) == (LuaEngine { libs: final(self).libs, ..*old(self) }),
    {
        let mut names: Vec<String> = Vec::new();
        let mut i: usize = 0;
        while i < libs.len()
            invariant
                i <= libs@.len(),
                names@.len() == i,
                forall|j: int| 0 <= j < i ==> (#[trigger] names@[j])@ == libs@[j]@,
            decreases libs@.len() - i,
        {
            names.push(libs[i].to_owned());
            i += 1;
        }
        self.libs = names;
    }
}

impl<S, W, H, C> RuntimeHookRegistrar<H> for LuaEngine<S, W, H, C> {
    open spec fn is_live(&self) -> bool {
        self.life.initialized
    }

    open spec fn waiting_hooks(&self) -> Seq<H> {
        self.hooks@
    }

    fn add_runtime_hook(&mut self, hook: H) -> (r: Option<H>)
        ensures
            *final(self) == (LuaEngine { hooks: final(self).hooks, ..*old(self) }),
    {
        if self.life.initialized {
            return Some(hook);
        }
        self.hooks.push(hook);
        None
    }
}

impl<S, W, H, C> Default for LuaEngine<S, W, H, C> {
    fn default() -> (r: Self)
        ensures
            r.life.label@ == "lua engine"@,
            !r.life.initialized,
            r.life.bound is None,
            r.life.watchers@ == Map::<Seq<char>, W>::empty(),
            r.life.last_error is None,
            r.libs@ == Seq::<String>::empty(),
            r.chunks@ == Seq::<C>::empty(),
            r.hooks@ == Seq::<H>::empty(),
            r.quota == (Quota { timeout: None, max_instructions: None }),
    {
        Self::new()
    }
}

impl<S, W, H, C> LuaEngine<S, W, H, C> {
    /// The engine before its first initialisation.
    pub fn new() -> (r: Self)
        ensures
            r.life.label@ == "lua engine"@,
            !r.life.initialized,
            r.life.bound is None,
            r.life.watchers@ == Map::<Seq<char>, W>::empty(),
            r.life.last_error is None,
            r.libs@ == Seq::<String>::empty(),
            r.chunks@ == Seq::<C>::empty(),
            r.hooks@ == Seq::<H>::empty(),
            r.quota == (Quota { timeout: None, max_instructions: None }),
    {
        LuaEngine {
            life: Lifecycle::new("lua engine"),
            libs: Vec::new(),
            chunks: Vec::new(),
            hooks: Vec::new(),
            quota: Quota::default(),
        }
    }

    /// The name the engine is registered under.
    pub fn engine_type(&self) -> (r: &'static str)
        ensures
            r@ == NAME@,
    {
        NAME
    }

    /// What the engine offers: everything.
    pub fn capabilities(&self) -> (r: Capabilities)
        ensures
            r == (Capabilities {
                loader: true,
                executor: true,
                globals: true,
                functions: true,
                modules: true,
                watcher: true,
                sandbox: true,
                runtime_hooks: true,
                sync_executor: true,
                quota: true,
            }),
    {
        let mut all = Capabilities::aggregate();
        all.sandbox = true;
        all.runtime_hooks = true;
        all.sync_executor = true;
        all.quota = true;
        all
    }

    /// A run that begins, with the whole budget.
    pub fn fresh_run(&self) -> (r: Run)
        ensures
            r.is_fresh(self.quota),
    {
        let meter = match self.quota.max_instructions {
            Some(n) => Some(Meter::new(n)),
            None => None,
        };
        Run { quota: self.quota, meter }
    }

    /// Begins the initialisation: says which libraries the runtime opens.
    pub fn begin_init(&mut self) -> (r: Result<OpenLibs, ScriptError>)
        ensures
            old(self).life.initialized ==> old(self).life.failed(
                final(self).life,
                r,
                old(self).life.complaint(": already initialized"@),
            ),
            !old(self).life.initialized ==> r == Ok::<OpenLibs, ScriptError>(
                libs_named(crate::text::texts(old(self).libs@)),
            ) && final(self).life == (Lifecycle { initialized: true, ..old(self).life }),
            *final(self) == (LuaEngine { life: final(self).life, ..*old(self) }),
    {
        self.life.begin_init()?;
        Ok(std_lib_for(&self.libs))
    }

    /// Takes whether there is a runtime now. Without one the engine is not
    /// initialised; with one the hooks that waited are handed out, to run in
    /// their order.
    pub fn runtime_made(&mut self, outcome: Result<(), String>) -> (r: Result<Vec<H>, ScriptError>)
        ensures
            match outcome {
                Ok(_) => r is Ok && r->Ok_0@ == old(self).hooks@ && final(self).hooks@ == Seq::<
                    H,
                >::empty() && final(self).life == old(self).life,
                Err(cause) => crate::script::error::fails(
                    r,
                    old(self).life.complaint(": init failed: "@ + cause@),
                ) && final(self).life == (Lifecycle {
                    initialized: false,
                    last_error: Some(r->Err_0),
                    ..old(self).life
                }) && final(self).hooks == old(self).hooks,
            },
            final(self).libs == old(self).libs,
            final(self).chunks == old(self).chunks,
            final(self).quota == old(self).quota,
    {
        if let Err(cause) = outcome {
            self.life.initialized = false;
            let what = cat(": init failed: ", cause.as_str());
            return Err(self.life.complain(what.as_str()));
        }
        let mut hooks: Vec<H> = Vec::new();
        std::mem::swap(&mut hooks, &mut self.hooks);
        Ok(hooks)
    }

    /// Ends the initialisation. A hook that failed makes it fail; the engine
    /// stays initialised all the same.
    pub fn end_init(&mut self, hooks_ran: bool) -> (r: Result<(), ScriptError>)
        ensures
            hooks_ran ==> r is Ok && *final(self) == (LuaEngine {
                life: old(self).life.recording(None),
                ..*old(self)
            }),
            !hooks_ran ==> crate::script::error::fails(r, "lua engine: runtime hook failed"@)
                && *final(self) == *old(self),
    {
        if !hooks_ran {
            return Err(ScriptError::Failed("lua engine: runtime hook failed".to_owned()));
        }
        self.life.clear_error();
        Ok(())
    }

    /// Closes the engine. The watches that ran are handed back, to be ended.
    pub fn close(&mut self) -> (r: Vec<W>)
        ensures
            !final(self).life.initialized,
            final(self).life.bound is None,
            final(self).life.last_error is None,
            final(self).life.watchers@ == Map::<Seq<char>, W>::empty(),
            final(self).life.label == old(self).life.label,
            final(self).libs == old(self).libs,
            final(self).chunks@ == Seq::<C>::empty(),
            final(self).hooks@ == Seq::<H>::empty(),
            final(self).quota == old(self).quota,
            r@.len() == old(self).life.watchers.keys().len(),
            forall|i: int|
                0 <= i < r@.len()
                    ==> #[trigger] r@[i]
                    == old(self).life.watchers@[old(self).life.watchers.keys()[i]],
    {
        let ended = self.life.close();
        self.chunks = Vec::new();
        self.hooks = Vec::new();
        ended
    }

    /// Takes what compiling a chunk came to. A chunk is kept, to be run.
    pub fn compiled(&mut self, outcome: Result<C, String>) -> (r: Result<(), ScriptError>)
        ensures
            match outcome {
                Ok(chunk) => r is Ok && final(self).chunks@ == old(self).chunks@.push(chunk)
                    && final(self).life == old(self).life.recording(None),
                Err(cause) => old(self).life.failed(
                    final(self).life,
                    r,
                    old(self).life.complaint(": compile failed: "@ + cause@),
                ) && final(self).chunks == old(self).chunks,
            },
            final(self).libs == old(self).libs,
            final(self).hooks == old(self).hooks,
            final(self).quota == old(self).quota,
    {
        let chunk = self.life.settle(": compile failed: ", outcome)?;
        self.chunks.push(chunk);
        Ok(())
    }

    /// Has the chunks run that are loaded, in their order, with the whole
    /// budget. There must be one.
    pub fn begin_execute(&mut self) -> (r: Result<Run, ScriptError>)
        ensures
            old(self).chunks@.len() == 0 ==> old(self).life.failed(
                final(self).life,
                r,
                old(self).life.complaint(": no chunk loaded"@),
            ),
            old(self).chunks@.len() > 0 && !old(self).life.initialized ==> old(self).life.failed(
                final(self).life,
                r,
                old(self).life.complaint(": not initialized"@),
            ),
            old(self).chunks@.len() > 0 && old(self).life.initialized ==> r is Ok
                && final(self).life == old(self).life && r->Ok_0.is_fresh(old(self).quota),
            *final(self) == (LuaEngine { life: final(self).life, ..*old(self) }),
    {
        if self.chunks.len() == 0 {
            return Err(self.life.complain(": no chunk loaded"));
        }
        self.life.guard()?;
        Ok(self.fresh_run())
    }

    /// Has the chunk run that was loaded last, and no other, with the whole
    /// budget: gives its position. There must be one.
    pub fn begin_execute_last(&mut self) -> (r: Result<(usize, Run), ScriptError>)
        ensures
            old(self).chunks@.len() == 0 ==> old(self).life.failed(
                final(self).life,
                r,
                old(self).life.complaint(": no chunk loaded"@),
            ),
            old(self).chunks@.len() > 0 && !old(self).life.initialized ==> old(self).life.failed(
                final(self).life,
                r,
                old(self).life.complaint(": not initialized"@),
            ),
            old(self).chunks@.len() > 0 && old(self).life.initialized ==> r is Ok
                && final(self).life == old(self).life && r->Ok_0.0 == old(self).chunks@.len() - 1
                && r->Ok_0.1.is_fresh(old(self).quota),
            *final(self) == (LuaEngine { life: final(self).life, ..*old(self) }),
    {
        let run = self.begin_execute()?;
        Ok((self.chunks.len() - 1, run))
    }

    /// Settles a run under the budget `quota`. A run that was ended for its
    /// instructions, or took too long, overran its budget, whatever came of it.
    pub fn settle_run<T>(
        &mut self,
        outcome: Result<T, String>,
        tripped: bool,
        quota: &Quota,
        elapsed: u128,
    ) -> (r: Result<T, ScriptError>)
        ensures
            tripped || quota.overran(elapsed) ==> r == Err::<T, ScriptError>(
                ScriptError::QuotaExceeded,
            ) && final(self).life == old(self).life.recording(Some(ScriptError::QuotaExceeded)),
            !tripped && !quota.overran(elapsed) ==> match outcome {
                Ok(v) => r == Ok::<T, ScriptError>(v)
                    && final(self).life == old(self).life.recording(None),
                Err(cause) => old(self).life.failed(
                    final(self).life,
                    r,
                    old(self).life.complaint(": "@ + cause@),
                ),
            },
            *final(self) == (LuaEngine { life: final(self).life, ..*old(self) }),
    {
        if tripped || quota.is_overrun(elapsed) {
            return Err(self.life.fail(ScriptError::QuotaExceeded));
        }
        self.life.settle(": ", outcome)
    }

    /// Settles an operation of the runtime that is no run.
    pub fn settle<T>(&mut self, outcome: Result<T, String>) -> (r: Result<T, ScriptError>)
        ensures
            match outcome {
                Ok(v) => r == Ok::<T, ScriptError>(v)
                    && final(self).life == old(self).life.recording(None),
                Err(cause) => old(self).life.failed(
                    final(self).life,
                    r,
                    old(self).life.complaint(": "@ + cause@),
                ),
            },
            *final(self) == (LuaEngine { life: final(self).life, ..*old(self) }),
    {
        self.life.settle(": ", outcome)
    }

    /// Takes what the global holds that is read. One that holds nothing is not
    /// defined.
    pub fn found_global(&mut self, name: &str, outcome: Result<LuaData, String>) -> (r: Result<
        ScriptValue,
        ScriptError,
    >)
        ensures
            match outcome {
                Ok(LuaData::Nil) => old(self).life.failed(
                    final(self).life,
                    r,
                    old(self).life.complaint(": global not found: "@ + name@),
                ),
                Ok(data) => r is Ok && r->Ok_0@ == lua_value(data@) && final(self).life
                    == old(self).life.recording(None),
                Err(cause) => old(self).life.failed(
                    final(self).life,
                    r,
                    old(self).life.complaint(": "@ + cause@),
                ),
            },
            *final(self) == (LuaEngine { life: final(self).life, ..*old(self) }),
    {
        let data = match outcome {
            Ok(LuaData::Nil) => {
                let what = cat(": global not found: ", name);
                return Err(self.life.complain(what.as_str()));
            },
            Ok(data) => data,
            Err(cause) => {
                let what = cat(": ", cause.as_str());
                return Err(self.life.complain(what.as_str()));
            },
        };
        self.life.clear_error();
        Ok(from_lua(&data))
    }

    /// Takes what the global holds that is to be called. A function is called
    /// with the whole budget.
    pub fn found_callee(&mut self, name: &str, callee: Callee) -> (r: Result<Run, ScriptError>)
        ensures
            match callee {
                Callee::Function => r is Ok && final(self).life == old(self).life
                    && r->Ok_0.is_fresh(old(self).quota),
                Callee::Other => old(self).life.failed(
                    final(self).life,
                    r,
                    old(self).life.complaint(": not callable: "@ + name@),
                ),
                Callee::Failed(cause) => old(self).life.failed(
                    final(self).life,
                    r,
                    old(self).life.complaint(": "@ + cause@),
                ),
            },
            *final(self) == (LuaEngine { life: final(self).life, ..*old(self) }),
    {
        match callee {
            Callee::Function => Ok(self.fresh_run()),
            Callee::Other => {
                let what = cat(": not callable: ", name);
                Err(self.life.complain(what.as_str()))
            },
            Callee::Failed(cause) => {
                let what = cat(": ", cause.as_str());
                Err(self.life.complain(what.as_str()))
            },
        }
    }

    /// A module that is data cannot be registered: it always fails.
    pub fn register_module(&mut self) -> (r: Result<(), ScriptError>)
        ensures
            old(self).life.failed(
                final(self).life,
                r,
                old(self).life.complaint(": module must be a native module"@),
            ),
            *final(self) == (LuaEngine { life: final(self).life, ..*old(self) }),
    {
        Err(self.life.complain(": module must be a native module"))
    }
}

impl<S, W, H> LuaEngine<S, W, H, mlua::Function> {
    /// Compiles a chunk for the runtime, and keeps it, to be run after those
    /// that are loaded. Without an initialised engine nothing is compiled.
    pub fn load_string(&mut self, lua: &mlua::Lua, code: &str) -> (r: Result<(), ScriptError>)
        ensures
            !old(self).life.initialized ==> old(self).life.failed(
                final(self).life,
                r,
                old(self).life.complaint(": not initialized"@),
            ) && final(self).chunks == old(self).chunks,
            old(self).life.initialized ==> match r {
                Ok(_) => final(self).chunks@.len() == old(self).chunks@.len() + 1
                    && final(self).chunks@.drop_last() == old(self).chunks@ && chunk_code(
                    final(self).chunks@.last(),
                ) == code@ && final(self).life == old(self).life.recording(None),
                Err(_) => final(self).chunks == old(self).chunks && exists|cause: Seq<char>|
                    #![trigger old(self).life.complaint(": compile failed: "@ + cause)]
                    old(self).life.failed(
                        final(self).life,
                        r,
                        old(self).life.complaint(": compile failed: "@ + cause),
                    ),
            },
            final(self).libs == old(self).libs,
            final(self).hooks == old(self).hooks,
            final(self).quota == old(self).quota,
    {
        self.life.guard()?;
        let outcome = compile_chunk(lua, code);
        let ghost came = outcome;
        let ghost before = self.chunks@;
        let r = self.compiled(outcome);
        proof {
            match came {
                Ok(chunk) => {
                    assert(self.chunks@.drop_last() =~= before);
                },
                Err(cause) => {
                    assert(old(self).life.failed(
                        self.life,
                        r,
                        old(self).life.complaint(": compile failed: "@ + cause@),
                    ));
                },
            }
        }
        r
    }
}

/// Makes an engine, not initialised.
pub fn factory<S, W, H, C>() -> (r: Result<LuaEngine<S, W, H, C>, ScriptError>)
    ensures
        r is Ok,
        !r->Ok_0.life.initialized,
        r->Ok_0.life.label@ == "lua engine"@,
        r->Ok_0.chunks@ == Seq::<C>::empty(),
{
    Ok(LuaEngine::new())
}

/// Registers the factory of the engine under its name. Where the name is taken
/// nothing happens.
pub fn register<F>(registry: &mut FactoryRegistry<F>, factory: F)
    ensures
        old(registry)@.contains_key(NAME@) ==> *final(registry) == *old(registry),
        !old(registry)@.contains_key(NAME@) ==> final(registry)@ == old(registry)@.insert(
            NAME@,
            factory,
        ),
{
    let _ = register_factory(registry, NAME, factory);
}

} // verus!
