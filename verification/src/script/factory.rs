//! The registry of engine factories, by engine name.
use vstd::prelude::*;

use crate::script::error::ScriptError;
use crate::string_map::StringMap;
use crate::text::{cat3, debug_quoted};

verus! {

/// The factories known, by the name of the engine they make. `F` is whatever
/// stands for a factory.
pub struct FactoryRegistry<F> {
    factories: StringMap<F>,
}

impl<F> View for FactoryRegistry<F> {
    type V = Map<Seq<char>, F>;

    closed spec fn view(&self) -> Map<Seq<char>, F> {
        self.factories@
    }
}

impl<F> FactoryRegistry<F> {
    /// The names known, in the order in which they were registered.
    pub closed spec fn names(&self) -> Seq<Seq<char>> {
        self.factories.keys()
    }

    /// A registry without factories.
    pub fn new() -> (r: Self)
        ensures
            r@ == Map::<Seq<char>, F>::empty(),
            r.names() == Seq::<Seq<char>>::empty(),
    {
        FactoryRegistry { factories: StringMap::new() }
    }
}

/// The complaint about a name.
pub open spec fn factory_text(typ: Seq<char>, what: Seq<char>) -> Seq<char> {
    "script engine factory "@ + crate::text::debug_text(typ) + what
}

fn factory_error(typ: &str, what: &str) -> (r: ScriptError)
    ensures
        r.says(factory_text(typ@, what@)),
{
    let quoted = debug_quoted(typ);
    ScriptError::Failed(cat3("script engine factory ", quoted.as_str(), what))
}

/// Registers a factory. A name that is taken stays with its factory.
pub fn register_factory<F>(registry: &mut FactoryRegistry<F>, typ: &str, factory: F) -> (r: Result<
    (),
    ScriptError,
>)
    ensures
        old(registry)@.contains_key(typ@) ==> crate::script::error::fails(
            r,
            factory_text(typ@, " already registered"@),
        ) && *final(registry) == *old(registry),
        !old(registry)@.contains_key(typ@) ==> r is Ok
            && final(registry)@ == old(registry)@.insert(typ@, factory)
            && final(registry).names() == old(registry).names().push(typ@),
{
    if registry.factories.contains_key(typ) {
        return Err(factory_error(typ, " already registered"));
    }
    registry.factories.insert(typ.to_owned(), factory);
    Ok(())
}

/// The factory registered under a name.
pub fn get_factory<'a, F>(registry: &'a FactoryRegistry<F>, typ: &str) -> (r: Option<&'a F>)
    ensures
        match r {
            Some(f) => registry@.contains_key(typ@) && *f == registry@[typ@],
            None => !registry@.contains_key(typ@),
        },
{
    registry.factories.get(typ)
}

/// The names registered.
pub fn list_factories<F>(registry: &FactoryRegistry<F>) -> (r: Vec<String>)
    ensures
        crate::text::texts(r@) == registry.names(),
        registry.names().no_duplicates(),
        registry@.dom() == registry.names().to_set(),
{
    let mut names: Vec<String> = Vec::new();
    let n: usize = registry.factories.len();
    let mut i: usize = 0;
    while i < n
        invariant
            i <= n,
            n == registry.names().len(),
            names@.len() == i,
            forall|j: int| 0 <= j < i ==> (#[trigger] names@[j])@ == registry.names()[j],
        decreases n - i,
    {
        names.push(registry.factories.key_at(i).clone());
        i += 1;
    }
    assert(crate::text::texts(names@) =~= registry.names());
    names
}

/// Takes the factory registered under a name out. Says whether there was one.
pub fn unregister_factory<F>(registry: &mut FactoryRegistry<F>, typ: &str) -> (r: bool)
    ensures
        r == old(registry)@.contains_key(typ@),
        final(registry)@ == old(registry)@.remove(typ@),
{
    registry.factories.remove(typ).is_some()
}

/// Makes an engine with the factory registered under a name. The engine comes
/// as the factory made it.
pub fn new_script_engine<E, F: Fn() -> Result<E, ScriptError>>(
    registry: &FactoryRegistry<F>,
    typ: &str,
) -> (r: Result<E, ScriptError>)
    requires
        registry@.contains_key(typ@) ==> registry@[typ@].requires(()),
    ensures
        registry@.contains_key(typ@) ==> registry@[typ@].ensures((), r),
        !registry@.contains_key(typ@) ==> crate::script::error::fails(
            r,
            factory_text(typ@, " not registered"@),
        ),
{
    match get_factory(registry, typ) {
        Some(factory) => factory(),
        None => Err(factory_error(typ, " not registered")),
    }
}

/// The complaint about a name that no factory goes by.
pub fn factory_missing(typ: &str) -> (r: ScriptError)
    ensures
        r.says(factory_text(typ@, " not registered"@)),
{
    factory_error(typ, " not registered")
}

} // verus!
