//! The latest snapshots of watched services, and the watchers that read them.
use vstd::prelude::*;

use crate::registry::{copy_instances, Instance, RegistryError};
use crate::string_map::StringMap;
use crate::text::same;

verus! {

/// What was last broadcast of each watched service. A service is watched from
/// the first time someone asks to watch it, for good.
pub struct Snapshots {
    sets: StringMap<Vec<Instance>>,
}

impl View for Snapshots {
    type V = Map<Seq<char>, Seq<crate::registry::InstanceView>>;

    closed spec fn view(&self) -> Map<Seq<char>, Seq<crate::registry::InstanceView>> {
        self.sets@.map_values(|l: Vec<Instance>| crate::registry::instance_views(l@))
    }
}

impl Snapshots {
    /// The watched services, in the order in which they were first watched.
    pub closed spec fn names(&self) -> Seq<Seq<char>> {
        self.sets.keys()
    }

    /// Nothing is watched.
    pub fn new() -> (s: Snapshots)
        ensures
            s@ == Map::<Seq<char>, Seq<crate::registry::InstanceView>>::empty(),
            s.names().len() == 0,
    {
        let s = Snapshots { sets: StringMap::new() };
        assert(s@ =~= Map::empty());
        s
    }

    /// The number of watched services.
    pub fn len(&self) -> (n: usize)
        ensures
            n == self.names().len(),
            self.names().no_duplicates(),
            self@.dom() == self.names().to_set(),
    {
        let n: usize = self.sets.len();
        assert(self@.dom() =~= self.sets@.dom());
        n
    }

    /// The name of the watched service at position `i`.
    pub fn name_at(&self, i: usize) -> (r: &String)
        requires
            i < self.names().len(),
        ensures
            r@ == self.names()[i as int],
            self@.contains_key(r@),
    {
        self.sets.key_at(i)
    }

    /// Begins to watch a service, with nothing broadcast. True where it was
    /// not watched before.
    pub fn begin_watch(&mut self, name: &str) -> (fresh: bool)
        ensures
            fresh == !old(self)@.contains_key(name@),
            final(self)@ == if fresh {
                old(self)@.insert(name@, Seq::empty())
            } else {
                old(self)@
            },
            final(self).names() == if fresh {
                old(self).names().push(name@)
            } else {
                old(self).names()
            },
    {
        if self.sets.contains_key(name) {
            return false;
        }
        let ghost before = self@;
        let none: Vec<Instance> = Vec::new();
        self.sets.insert(name.to_owned(), none);
        proof {
            assert(crate::registry::instance_views(none@) =~= Seq::empty());
            assert(self@ =~= before.insert(name@, Seq::empty()));
        }
        true
    }

    /// Broadcasts a new snapshot of a service.
    pub fn publish(&mut self, name: &str, instances: Vec<Instance>)
        ensures
            final(self)@ == old(self)@.insert(
                name@,
                crate::registry::instance_views(instances@),
            ),
            old(self)@.contains_key(name@) ==> final(self).names() == old(self).names(),
    {
        let ghost before = self@;
        self.sets.insert(name.to_owned(), instances);
        assert(self@ =~= before.insert(name@, crate::registry::instance_views(instances@)));
    }

    /// Broadcasts a snapshot where it differs from the last one of a watched
    /// service. True where it was broadcast.
    pub fn publish_change(&mut self, name: &str, instances: Vec<Instance>) -> (changed: bool)
        ensures
            changed == (old(self)@.contains_key(name@) && old(self)@[name@]
                != crate::registry::instance_views(instances@)),
            final(self)@ == if changed {
                old(self)@.insert(name@, crate::registry::instance_views(instances@))
            } else {
                old(self)@
            },
            final(self).names() == old(self).names(),
    {
        match self.sets.get(name) {
            None => false,
            Some(last) => {
                if same_instances(last, &instances) {
                    false
                } else {
                    self.publish(name, instances);
                    true
                }
            },
        }
    }

    /// The last snapshot of a service, where it is watched.
    pub fn get(&self, name: &str) -> (r: Option<Vec<Instance>>)
        ensures
            match r {
                Some(l) => self@.contains_key(name@) && crate::registry::instance_views(l@)
                    == self@[name@],
                None => !self@.contains_key(name@),
            },
    {
        match self.sets.get(name) {
            Some(l) => Some(copy_instances(l)),
            None => None,
        }
    }
}

/// Whether two lists of strings hold the same texts.
pub fn same_texts(a: &Vec<String>, b: &Vec<String>) -> (r: bool)
    ensures
        r == (crate::text::texts(a@) == crate::text::texts(b@)),
{
    if a.len() != b.len() {
        assert(crate::text::texts(a@).len() != crate::text::texts(b@).len());
        return false;
    }
    let mut i: usize = 0;
    while i < a.len()
        invariant
            i <= a@.len() == b@.len(),
            forall|j: int| 0 <= j < i ==> (#[trigger] a@[j])@ == b@[j]@,
        decreases a@.len() - i,
    {
        if !same(a[i].as_str(), b[i].as_str()) {
            assert(crate::text::texts(a@)[i as int] != crate::text::texts(b@)[i as int]);
            return false;
        }
        i += 1;
    }
    assert(crate::text::texts(a@) =~= crate::text::texts(b@));
    true
}

/// Whether two instances hold the same.
pub fn same_instance(a: &Instance, b: &Instance) -> (r: bool)
    ensures
        r == (a@ == b@),
{
    same(a.id.as_str(), b.id.as_str()) && same(a.name.as_str(), b.name.as_str()) && same(
        a.version.as_str(),
        b.version.as_str(),
    ) && same_texts(&a.endpoints, &b.endpoints)
}

/// Whether two lists of instances hold the same.
pub fn same_instances(a: &Vec<Instance>, b: &Vec<Instance>) -> (r: bool)
    ensures
        r == (crate::registry::instance_views(a@) == crate::registry::instance_views(b@)),
{
    let ghost left = crate::registry::instance_views(a@);
    let ghost right = crate::registry::instance_views(b@);
    if a.len() != b.len() {
        assert(left.len() != right.len());
        return false;
    }
    let mut i: usize = 0;
    while i < a.len()
        invariant
            i <= a@.len() == b@.len(),
            forall|j: int| 0 <= j < i ==> (#[trigger] a@[j])@ == b@[j]@,
        decreases a@.len() - i,
    {
        if !same_instance(&a[i], &b[i]) {
            assert(crate::registry::instance_views(a@)[i as int]
                != crate::registry::instance_views(b@)[i as int]);
            return false;
        }
        i += 1;
    }
    assert(left =~= right);
    true
}

/// How a watcher goes on when it is asked for the next snapshot.
pub enum NextStep {
    /// It fails.
    Fail(RegistryError),
    /// It hands this snapshot over.
    Deliver(Vec<Instance>),
    /// It waits for the next broadcast.
    Wait,
}

/// A reader of one watched service's broadcasts.
#[derive(Debug)]
pub struct SnapshotWatcher {
    /// A snapshot that is already there is to be handed over at once.
    pub eager: bool,
    /// It has been stopped.
    pub stopped: bool,
}

impl SnapshotWatcher {
    /// A watcher that waits for the next broadcast.
    pub fn new() -> (w: SnapshotWatcher)
        ensures
            !w.eager && !w.stopped,
    {
        SnapshotWatcher { eager: false, stopped: false }
    }

    /// A watcher that hands a snapshot that is already there over at once.
    pub fn eager() -> (w: SnapshotWatcher)
        ensures
            w.eager && !w.stopped,
    {
        SnapshotWatcher { eager: true, stopped: false }
    }

    /// What asking for the next snapshot leads to, `current` being what has
    /// been broadcast so far.
    pub fn begin_next(&mut self, current: Vec<Instance>) -> (r: NextStep)
        ensures
            final(self).stopped == old(self).stopped,
            final(self).eager == (old(self).eager && old(self).stopped),
            if old(self).stopped {
                r matches NextStep::Fail(e) && e.reason() == "watcher stopped"@
            } else if old(self).eager && current@.len() > 0 {
                r == NextStep::Deliver(current)
            } else {
                r == NextStep::Wait
            },
    {
        if self.stopped {
            return NextStep::Fail(RegistryError::Failed("watcher stopped".to_owned()));
        }
        if self.eager {
            self.eager = false;
            if current.len() > 0 {
                return NextStep::Deliver(current);
            }
        }
        NextStep::Wait
    }

    /// What a finished wait gives: the new snapshot, or the failure where no
    /// more broadcasts will come.
    pub fn finish_next(&self, changed: Option<Vec<Instance>>) -> (r: Result<
        Vec<Instance>,
        RegistryError,
    >)
        ensures
            match changed {
                Some(l) => r == Ok::<Vec<Instance>, RegistryError>(l),
                None => crate::registry::failed(r, "watcher stopped"@),
            },
    {
        match changed {
            Some(l) => Ok(l),
            None => Err(RegistryError::Failed("watcher stopped".to_owned())),
        }
    }

    /// Stops the watcher.
    pub fn stop(&mut self)
        ensures
            final(self).stopped,
            final(self).eager == old(self).eager,
    {
        self.stopped = true;
    }
}

} // verus!
