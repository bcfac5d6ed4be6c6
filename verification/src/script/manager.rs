//! Several engines under names, brought up and down together.
use vstd::prelude::*;

use crate::script::error::ScriptError;
use crate::string_map::StringMap;

verus! {

/// Engines under names. `E` is whatever stands for an engine.
pub struct Manager<E> {
    engines: StringMap<E>,
    default_name: String,
}

impl<E> Default for Manager<E> {
    fn default() -> (r: Self)
        ensures
            r.engines() == Map::<Seq<char>, E>::empty(),
            r.default_text() == Seq::<char>::empty(),
    {
        Manager::new()
    }
}

impl<E> Manager<E> {
    /// The engines, by name.
    pub closed spec fn engines(&self) -> Map<Seq<char>, E> {
        self.engines@
    }

    /// The names, in the order in which they were registered.
    pub closed spec fn names(&self) -> Seq<Seq<char>> {
        self.engines.keys()
    }

    /// The name of the default engine.
    pub closed spec fn default_text(&self) -> Seq<char> {
        self.default_name@
    }

    /// A manager without engines.
    pub fn new() -> (r: Self)
        ensures
            r.engines() == Map::<Seq<char>, E>::empty(),
            r.names() == Seq::<Seq<char>>::empty(),
            r.default_text() == Seq::<char>::empty(),
    {
        Manager { engines: StringMap::new(), default_name: String::new() }
    }

    /// Registers an engine. A name must not be empty and not be taken.
    pub fn register(&mut self, name: &str, engine: E) -> (r: Result<(), ScriptError>)
        ensures
            name@.len() == 0 ==> crate::script::error::fails(r, "manager: invalid name"@)
                && *final(self) == *old(self),
            name@.len() > 0 && old(self).engines().contains_key(name@)
                ==> crate::script::error::fails(r, "manager: engine already registered"@)
                    && *final(self) == *old(self),
            name@.len() > 0 && !old(self).engines().contains_key(name@) ==> r is Ok
                && final(self).engines() == old(self).engines().insert(name@, engine)
                && final(self).names() == old(self).names().push(name@),
            final(self).default_text() == old(self).default_text(),
    {
        if name.is_empty() {
            return Err(ScriptError::Failed("manager: invalid name".to_owned()));
        }
        if self.engines.contains_key(name) {
            return Err(ScriptError::Failed("manager: engine already registered".to_owned()));
        }
        self.engines.insert(name.to_owned(), engine);
        Ok(())
    }

    /// The engine under a name.
    pub fn get(&self, name: &str) -> (r: Option<&E>)
        ensures
            match r {
                Some(e) => self.engines().contains_key(name@) && *e == self.engines()[name@],
                None => !self.engines().contains_key(name@),
            },
    {
        self.engines.get(name)
    }

    /// The number of engines.
    pub fn len(&self) -> (r: usize)
        ensures
            r == self.names().len(),
            self.names().no_duplicates(),
            self.engines().dom() == self.names().to_set(),
    {
        self.engines.len()
    }

    /// The engine that comes at position `i` when all of them are initialised.
    pub fn engine_at(&self, i: usize) -> (r: &E)
        requires
            i < self.names().len(),
        ensures
            *r == self.engines()[self.names()[i as int]],
    {
        self.engines.value_at(i)
    }

    /// Takes all engines out, to be closed.
    pub fn close_all(&mut self) -> (r: Vec<E>)
        ensures
            final(self).engines() == Map::<Seq<char>, E>::empty(),
            final(self).default_text() == old(self).default_text(),
            r@.len() == old(self).names().len(),
            forall|i: int|
                0 <= i < r@.len() ==> #[trigger] r@[i] == old(self).engines()[old(self).names()[i]],
    {
        self.engines.drain()
    }

    /// Takes the engine under a name out. With `close_if_exists` it is handed
    /// back, to be closed; else it is let go.
    pub fn remove(&mut self, name: &str, close_if_exists: bool) -> (r: Option<E>)
        ensures
            final(self).engines() == old(self).engines().remove(name@),
            final(self).default_text() == old(self).default_text(),
            r == (if close_if_exists && old(self).engines().contains_key(name@) {
                Some(old(self).engines()[name@])
            } else {
                None
            }),
    {
        let engine = self.engines.remove(name);
        if close_if_exists {
            engine
        } else {
            None
        }
    }

    /// Says which name the default engine goes by.
    pub fn set_default(&mut self, name: &str)
        ensures
            final(self).default_text() == name@,
            final(self).engines() == old(self).engines(),
            final(self).names() == old(self).names(),
    {
        self.default_name = name.to_owned();
    }

    /// The default engine.
    pub fn get_default(&self) -> (r: Option<&E>)
        ensures
            match r {
                Some(e) => self.engines().contains_key(self.default_text()) && *e
                    == self.engines()[self.default_text()],
                None => !self.engines().contains_key(self.default_text()),
            },
    {
        self.engines.get(self.default_name.as_str())
    }
}

} // verus!
