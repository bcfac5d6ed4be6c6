//! Scripts kept in memory.
use vstd::prelude::*;

use crate::script::error::ScriptError;
use crate::string_map::StringMap;
use crate::text::{cat3, debug_quoted};

verus! {

/// The texts under the keys of a map.
pub open spec fn text_map(codes: Map<Seq<char>, String>) -> Map<Seq<char>, Seq<char>> {
    Map::new(|k: Seq<char>| codes.contains_key(k), |k: Seq<char>| codes[k]@)
}

/// Scripts in memory, and the signals of those who watch them. `G` is whatever
/// stands for a signal.
pub struct MemSource<G> {
    codes: StringMap<String>,
    signals: StringMap<G>,
}

/// What loading a key gives.
pub open spec fn loaded(codes: Map<Seq<char>, Seq<char>>, key: Seq<char>) -> Option<Seq<char>> {
    if codes.contains_key(key) {
        Some(codes[key])
    } else {
        None
    }
}

/// The complaint about a key without a script.
pub open spec fn missing_text(key: Seq<char>) -> Seq<char> {
    "mem source: key "@ + crate::text::debug_text(key) + " not found"@
}

/// A script that is set is what its key loads, a script that is deleted is not
/// loaded, and other keys load what they did.
pub proof fn what_is_set_is_loaded(
    codes: Map<Seq<char>, Seq<char>>,
    key: Seq<char>,
    code: Seq<char>,
    other: Seq<char>,
)
    ensures
        loaded(codes.insert(key, code), key) == Some(code),
        loaded(codes.remove(key), key) is None,
        other != key ==> loaded(codes.insert(key, code), other) == loaded(codes, other),
        other != key ==> loaded(codes.remove(key), other) == loaded(codes, other),
{
}

impl<G> Default for MemSource<G> {
    fn default() -> (r: Self)
        ensures
            r.codes() == Map::<Seq<char>, Seq<char>>::empty(),
            r.signals() == Map::<Seq<char>, G>::empty(),
    {
        MemSource::new()
    }
}

impl<G> MemSource<G> {
    /// The scripts, by key.
    pub closed spec fn codes(&self) -> Map<Seq<char>, Seq<char>> {
        text_map(self.codes@)
    }

    /// The signals of the watched keys.
    pub closed spec fn signals(&self) -> Map<Seq<char>, G> {
        self.signals@
    }

    /// A source without scripts.
    pub fn new() -> (r: Self)
        ensures
            r.codes() == Map::<Seq<char>, Seq<char>>::empty(),
            r.signals() == Map::<Seq<char>, G>::empty(),
    {
        let r = MemSource { codes: StringMap::new(), signals: StringMap::new() };
        assert(r.codes() =~= Map::<Seq<char>, Seq<char>>::empty());
        r
    }

    /// Sets the script of a key. Says whether there are watchers to signal.
    pub fn set(&mut self, key: &str, code: &str) -> (r: bool)
        ensures
            final(self).codes() == old(self).codes().insert(key@, code@),
            final(self).signals() == old(self).signals(),
            r == old(self).signals().contains_key(key@),
    {
        let ghost before = self.codes();
        self.codes.insert(key.to_owned(), code.to_owned());
        assert(self.codes() =~= before.insert(key@, code@));
        self.signals.contains_key(key)
    }

    /// Deletes the script of a key. Says whether there are watchers to signal.
    pub fn delete(&mut self, key: &str) -> (r: bool)
        ensures
            final(self).codes() == old(self).codes().remove(key@),
            final(self).signals() == old(self).signals(),
            r == old(self).signals().contains_key(key@),
    {
        let ghost before = self.codes();
        self.codes.remove(key);
        assert(self.codes() =~= before.remove(key@));
        self.signals.contains_key(key)
    }

    /// The script of a key.
    pub fn load(&self, key: &str) -> (r: Result<String, ScriptError>)
        ensures
            match loaded(self.codes(), key@) {
                Some(code) => r is Ok && r->Ok_0@ == code,
                None => crate::script::error::fails(r, missing_text(key@)),
            },
    {
        match self.codes.get(key) {
            Some(code) => Ok(code.clone()),
            None => {
                let quoted = debug_quoted(key);
                Err(ScriptError::Failed(cat3("mem source: key ", quoted.as_str(), " not found")))
            },
        }
    }

    /// Has a key watched: by the signal it has, or else by a fresh one.
    pub fn watch(&mut self, key: &str, fresh: G)
        ensures
            final(self).codes() == old(self).codes(),
            final(self).signals() == (if old(self).signals().contains_key(key@) {
                old(self).signals()
            } else {
                old(self).signals().insert(key@, fresh)
            }),
    {
        if !self.signals.contains_key(key) {
            self.signals.insert(key.to_owned(), fresh);
        }
    }

    /// The signal of a watched key.
    pub fn signal(&self, key: &str) -> (r: Option<&G>)
        ensures
            match r {
                Some(g) => self.signals().contains_key(key@) && *g == self.signals()[key@],
                None => !self.signals().contains_key(key@),
            },
    {
        self.signals.get(key)
    }
}

} // verus!
