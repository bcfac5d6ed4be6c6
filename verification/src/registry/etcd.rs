//! Etcd: registrations under a lease that is kept alive, and renewed when it
//! is lost; and watches that are opened again when their stream breaks.
use vstd::prelude::*;

use crate::registry::{registry_key, Registration, RegistryError, DEFAULT_NAMESPACE};
use crate::string_map::StringMap;
use crate::text::{cat, cat3};

verus! {

/// The lease time in seconds where none is given.
pub const DEFAULT_TTL: i64 = 15;

/// The settings that an etcd registry is made from.
#[derive(Debug)]
pub struct EtcdSettings {
    /// Where etcd is.
    pub endpoints: Vec<String>,
    /// The namespace; the default one where it is absent.
    pub namespace: Option<String>,
    /// The lease time in seconds; the default one where it is absent.
    pub ttl: Option<i64>,
}

/// How long to wait for an answer to a refresh, in seconds: a third of the
/// lease time, and no less than one.
pub open spec fn refresh_secs(ttl: int) -> int {
    if ttl >= 3 {
        ttl / 3
    } else {
        1
    }
}

/// How long to wait for an answer to a refresh, in seconds.
pub fn refresh_interval(ttl: i64) -> (secs: u64)
    ensures
        secs == refresh_secs(ttl as int),
{
    if ttl >= 3 {
        (ttl / 3) as u64
    } else {
        1
    }
}

/// Three refreshes fit into a lease time of three seconds or more.
pub proof fn refreshes_fit(ttl: i64)
    ensures
        refresh_secs(ttl as int) >= 1,
        ttl >= 3 ==> refresh_secs(ttl as int) * 3 <= ttl,
{
}

/// The wait for an answer is the longest that lets three fit into the lease
/// time, and one second where not even three of those do.
pub proof fn wait_is_a_third(ttl: i64, secs: int)
    requires
        secs >= 1,
    ensures
        secs * 3 <= ttl ==> secs <= refresh_secs(ttl as int),
        ttl < 3 ==> refresh_secs(ttl as int) == 1,
{
}

/// The state of an etcd registry. `T` is whatever stands for a running
/// keepalive task.
pub struct EtcdRegistry<T> {
    pub namespace: String,
    /// The lease time in seconds.
    pub ttl: i64,
    /// Keepalive tasks by key.
    pub tasks: StringMap<T>,
}

impl<T> EtcdRegistry<T> {
    /// A registry with the given namespace and lease time.
    pub fn connect_with(namespace: &str, ttl_seconds: i64) -> (r: Self)
        ensures
            r.namespace@ == namespace@,
            r.ttl == ttl_seconds,
            r.tasks@ == Map::<Seq<char>, T>::empty(),
    {
        EtcdRegistry { namespace: namespace.to_owned(), ttl: ttl_seconds, tasks: StringMap::new() }
    }

    /// A registry as its settings ask for it.
    pub fn from_settings(settings: &EtcdSettings) -> (r: Self)
        ensures
            r.namespace@ == match settings.namespace {
                Some(n) => n@,
                None => DEFAULT_NAMESPACE@,
            },
            r.ttl == match settings.ttl {
                Some(ttl) => ttl,
                None => DEFAULT_TTL,
            },
            r.tasks@ == Map::<Seq<char>, T>::empty(),
    {
        let ttl: i64 = match settings.ttl {
            Some(ttl) => ttl,
            None => DEFAULT_TTL,
        };
        match &settings.namespace {
            Some(n) => Self::connect_with(n.as_str(), ttl),
            None => Self::connect_with(DEFAULT_NAMESPACE, ttl),
        }
    }

    /// Remembers the keepalive task of an instance. An
    /// earlier one is handed back, to be stopped.
    pub fn keep_task(&mut self, registration: &Registration, task: T) -> (r: Option<T>)
        ensures
            ({
                let key = crate::registry::key_text(
                    old(self).namespace@,
                    registration@.instance.name,
                    registration@.instance.id,
                );
                &&& final(self).tasks@ == old(self).tasks@.insert(key, task)
                &&& r == (if old(self).tasks@.contains_key(key) {
                    Some(old(self).tasks@[key])
                } else {
                    None
                })
            }),
            final(self).namespace == old(self).namespace,
            final(self).ttl == old(self).ttl,
    {
        let key = registry_key(self.namespace.as_str(), &registration.instance);
        self.tasks.insert(key, task)
    }

    /// Gives the keepalive task of an instance up, for it to be stopped.
    pub fn drop_task(&mut self, registration: &Registration) -> (r: Option<T>)
        ensures
            ({
                let key = crate::registry::key_text(
                    old(self).namespace@,
                    registration@.instance.name,
                    registration@.instance.id,
                );
                &&& final(self).tasks@ == old(self).tasks@.remove(key)
                &&& match r {
                    Some(task) => old(self).tasks@.contains_key(key) && task
                        == old(self).tasks@[key],
                    None => !old(self).tasks@.contains_key(key),
                }
            }),
            final(self).namespace == old(self).namespace,
            final(self).ttl == old(self).ttl,
    {
        let key = registry_key(self.namespace.as_str(), &registration.instance);
        self.tasks.remove(key.as_str())
    }
}

/// What granting a lease gave.
pub fn settle_grant(granted: Result<i64, String>) -> (r: Result<i64, RegistryError>)
    ensures
        match granted {
            Ok(id) => r == Ok::<i64, RegistryError>(id),
            Err(e) => crate::registry::failed(r, "etcd lease grant: "@ + e@),
        },
{
    match granted {
        Ok(id) => Ok(id),
        Err(e) => Err(RegistryError::Failed(cat("etcd lease grant: ", e.as_str()))),
    }
}

/// What an operation on a key gave: `operation` names it in failures.
pub fn settle_key(operation: &str, key: &str, done: Result<(), String>) -> (r: Result<
    (),
    RegistryError,
>)
    ensures
        match done {
            Ok(_) => r is Ok,
            Err(e) => crate::registry::failed(
                r,
                "etcd "@ + operation@ + " "@ + key@ + ": "@ + e@,
            ),
        },
{
    match done {
        Ok(_) => Ok(()),
        Err(e) => {
            let mut s: String = cat3("etcd ", operation, " ");
            s.append(key);
            s.append(": ");
            s.append(e.as_str());
            Err(RegistryError::Failed(s))
        },
    }
}

/// What a keepalive has asked for last.
#[derive(Debug, Clone, Copy, PartialEq, Eq, Structural)]
pub enum KeepalivePhase {
    /// To open the refresh stream of the lease.
    Opening,
    /// To send a refresh.
    Sending,
    /// To wait for its answer.
    Receiving,
    /// To grant a new lease.
    Granting,
    /// To put the key under this new lease.
    Putting(i64),
    /// To wait before the next attempt.
    Pausing,
}

/// What a keepalive asks for next.
#[derive(Debug, Clone, Copy, PartialEq, Eq, Structural)]
pub enum KeepaliveAction {
    /// Open the refresh stream of this lease.
    Open(i64),
    /// Send a refresh.
    Send,
    /// Wait for the answer, so many seconds at most.
    Receive(u64),
    /// Grant a new lease.
    Grant,
    /// Put the key under this lease.
    Put(i64),
    /// Wait so many seconds.
    Sleep(u64),
}

/// The keepalive of one registration. It never ends: a lease that is lost is
/// granted anew, and the key is put again.
#[derive(Debug, Clone, Copy, PartialEq, Eq, Structural)]
pub struct Keepalive {
    /// The lease that the key was last put under.
    pub lease_id: i64,
    pub phase: KeepalivePhase,
    /// The lease time in seconds.
    pub ttl: i64,
}

/// What follows when what was asked for has come about or has failed; `done`
/// holds the new lease where one was granted.
pub open spec fn keepalive_next(k: Keepalive, done: Option<i64>) -> (Keepalive, KeepaliveAction) {
    let lost = (
        Keepalive { phase: KeepalivePhase::Granting, ..k },
        KeepaliveAction::Grant,
    );
    let pause = (Keepalive { phase: KeepalivePhase::Pausing, ..k }, KeepaliveAction::Sleep(1));
    match (k.phase, done) {
        (KeepalivePhase::Opening, Some(_)) => (
            Keepalive { phase: KeepalivePhase::Sending, ..k },
            KeepaliveAction::Send,
        ),
        (KeepalivePhase::Sending, Some(_)) => (
            Keepalive { phase: KeepalivePhase::Receiving, ..k },
            KeepaliveAction::Receive(refresh_secs(k.ttl as int) as u64),
        ),
        (KeepalivePhase::Receiving, Some(_)) => (
            Keepalive { phase: KeepalivePhase::Sending, ..k },
            KeepaliveAction::Send,
        ),
        (KeepalivePhase::Granting, Some(id)) => (
            Keepalive { phase: KeepalivePhase::Putting(id), ..k },
            KeepaliveAction::Put(id),
        ),
        (KeepalivePhase::Putting(id), Some(_)) => (
            Keepalive { lease_id: id, phase: KeepalivePhase::Opening, ttl: k.ttl },
            KeepaliveAction::Open(id),
        ),
        (KeepalivePhase::Granting, None) => pause,
        (KeepalivePhase::Putting(_), None) => pause,
        (KeepalivePhase::Pausing, _) => (
            Keepalive { phase: KeepalivePhase::Opening, ..k },
            KeepaliveAction::Open(k.lease_id),
        ),
        _ => lost,
    }
}

impl Keepalive {
    /// The keepalive of a key that has been put under a lease.
    pub fn start(lease_id: i64, ttl: i64) -> (r: (Keepalive, KeepaliveAction))
        ensures
            r.0 == (Keepalive { lease_id, phase: KeepalivePhase::Opening, ttl }),
            r.1 == KeepaliveAction::Open(lease_id),
    {
        (
            Keepalive { lease_id, phase: KeepalivePhase::Opening, ttl },
            KeepaliveAction::Open(lease_id),
        )
    }

    /// One step of the keepalive.
    pub fn step(&mut self, done: Option<i64>) -> (action: KeepaliveAction)
        ensures
            (*final(self), action) == keepalive_next(*old(self), done),
    {
        match (self.phase, done) {
            (KeepalivePhase::Opening, Some(_)) | (KeepalivePhase::Receiving, Some(_)) => {
                self.phase = KeepalivePhase::Sending;
                KeepaliveAction::Send
            },
            (KeepalivePhase::Sending, Some(_)) => {
                self.phase = KeepalivePhase::Receiving;
                KeepaliveAction::Receive(refresh_interval(self.ttl))
            },
            (KeepalivePhase::Granting, Some(id)) => {
                self.phase = KeepalivePhase::Putting(id);
                KeepaliveAction::Put(id)
            },
            (KeepalivePhase::Putting(id), Some(_)) => {
                self.lease_id = id;
                self.phase = KeepalivePhase::Opening;
                KeepaliveAction::Open(id)
            },
            (KeepalivePhase::Granting, None) | (KeepalivePhase::Putting(_), None) => {
                self.phase = KeepalivePhase::Pausing;
                KeepaliveAction::Sleep(1)
            },
            (KeepalivePhase::Pausing, _) => {
                self.phase = KeepalivePhase::Opening;
                KeepaliveAction::Open(self.lease_id)
            },
            _ => {
                self.phase = KeepalivePhase::Granting;
                KeepaliveAction::Grant
            },
        }
    }
}

/// However a lease is lost, at any of the three steps of a refresh, the key is
/// put again under a new lease as soon as granting and putting succeed, and
/// that lease is the one refreshed from then on.
pub proof fn lost_lease_is_renewed(k: Keepalive, id: i64)
    requires
        k.phase == KeepalivePhase::Opening || k.phase == KeepalivePhase::Sending || k.phase
            == KeepalivePhase::Receiving,
    ensures
        ({
            let (k1, a1) = keepalive_next(k, None);
            let (k2, a2) = keepalive_next(k1, Some(id));
            let (k3, a3) = keepalive_next(k2, Some(0));
            &&& a1 == KeepaliveAction::Grant
            &&& a2 == KeepaliveAction::Put(id)
            &&& a3 == KeepaliveAction::Open(id)
            &&& k3.lease_id == id
            &&& k3.phase == KeepalivePhase::Opening
        }),
{
}

/// Where a keepalive stands after so many steps, the outcome of each given.
pub open spec fn keepalive_after(
    lease_id: i64,
    ttl: i64,
    done: Seq<Option<i64>>,
    steps: nat,
) -> (Keepalive, KeepaliveAction)
    decreases steps,
{
    if steps == 0 {
        (
            Keepalive { lease_id, phase: KeepalivePhase::Opening, ttl },
            KeepaliveAction::Open(lease_id),
        )
    } else {
        keepalive_next(
            keepalive_after(lease_id, ttl, done, (steps - 1) as nat).0,
            done[steps - 1],
        )
    }
}

/// As long as everything succeeds, a keepalive opens the stream of its lease
/// once and then sends refreshes and waits for their answers in turn, each time
/// for as long: no lease is granted, the key is not put again, and there is no
/// pause.
pub proof fn kept_lease_is_only_refreshed(
    lease_id: i64,
    ttl: i64,
    done: Seq<Option<i64>>,
    steps: nat,
)
    requires
        forall|i: int| 0 <= i < steps ==> #[trigger] done[i] is Some,
    ensures
        ({
            let (k, action) = keepalive_after(lease_id, ttl, done, steps);
            &&& k.lease_id == lease_id
            &&& k.ttl == ttl
            &&& steps == 0 ==> action == KeepaliveAction::Open(lease_id) && k.phase
                == KeepalivePhase::Opening
            &&& steps % 2 == 1 ==> action == KeepaliveAction::Send && k.phase
                == KeepalivePhase::Sending
            &&& steps > 0 && steps % 2 == 0 ==> action == KeepaliveAction::Receive(
                refresh_secs(ttl as int) as u64,
            ) && k.phase == KeepalivePhase::Receiving
        }),
    decreases steps,
{
    if steps > 0 {
        kept_lease_is_only_refreshed(lease_id, ttl, done, (steps - 1) as nat);
        assert(done[steps - 1] is Some);
    }
}

/// A lease that cannot be granted, and a key that cannot be put under a new one,
/// leave the old lease in place: after a pause of one second its stream is
/// opened again.
pub proof fn failed_renewal_is_tried_again(k: Keepalive, id: i64, after_pause: Option<i64>)
    requires
        k.phase == KeepalivePhase::Granting || k.phase == KeepalivePhase::Putting(id),
    ensures
        ({
            let (k1, a1) = keepalive_next(k, None);
            let (k2, a2) = keepalive_next(k1, after_pause);
            &&& a1 == KeepaliveAction::Sleep(1)
            &&& a2 == KeepaliveAction::Open(k.lease_id)
            &&& k2 == (Keepalive { phase: KeepalivePhase::Opening, ..k })
        }),
{
}

/// A reader of a service's keys.
#[derive(Debug)]
pub struct EtcdWatcher {
    /// Nothing has been asked of it yet.
    pub first: bool,
    /// It has a stream to wait on.
    pub streaming: bool,
}

/// How a watcher goes on when it is asked for the next snapshot.
#[derive(Debug)]
pub enum NextStep {
    /// It fails.
    Fail(RegistryError),
    /// It reads the service's instances.
    Read,
    /// It waits on its stream.
    Wait,
    /// It waits so many seconds, and opens a new stream.
    Reopen(u64),
}

/// A message of a watch stream, as far as it is read.
#[derive(Debug)]
pub struct WatchMessage {
    pub canceled: bool,
    pub compact_revision: i64,
}

impl EtcdWatcher {
    /// A watcher with a stream that nothing has been asked of yet.
    pub fn new() -> (w: EtcdWatcher)
        ensures
            w.first && w.streaming,
    {
        EtcdWatcher { first: true, streaming: true }
    }

    /// What asking for the next snapshot leads to: the first is read at once,
    /// the later ones when the stream brings a message.
    pub fn begin_next(&mut self) -> (r: NextStep)
        ensures
            !final(self).first,
            final(self).streaming == old(self).streaming,
            if old(self).first {
                r == NextStep::Read
            } else if old(self).streaming {
                r == NextStep::Wait
            } else {
                r matches NextStep::Fail(e) && e.reason()
                    == "watcher stopped: stream already released"@
            },
    {
        if self.first {
            self.first = false;
            NextStep::Read
        } else if self.streaming {
            NextStep::Wait
        } else {
            NextStep::Fail(
                RegistryError::Failed("watcher stopped: stream already released".to_owned()),
            )
        }
    }

    /// What the stream's next message leads to, nothing standing for a stream
    /// that has died: one that is canceled, compacted or dead is released and
    /// opened again after a second.
    pub fn received(&mut self, message: Option<WatchMessage>) -> (r: NextStep)
        ensures
            final(self).first == old(self).first,
            match message {
                Some(m) => if !m.canceled && m.compact_revision == 0 {
                    r == NextStep::Read && final(self).streaming == old(self).streaming
                } else {
                    r == NextStep::Reopen(1) && !final(self).streaming
                },
                None => r == NextStep::Reopen(1) && !final(self).streaming,
            },
    {
        let healthy: bool = match message {
            Some(m) => !m.canceled && m.compact_revision == 0,
            None => false,
        };
        if healthy {
            NextStep::Read
        } else {
            self.streaming = false;
            NextStep::Reopen(1)
        }
    }

    /// What opening a new stream leads to.
    pub fn reopened(&mut self, opened: Result<(), RegistryError>) -> (r: NextStep)
        ensures
            final(self).first == old(self).first,
            match opened {
                Ok(_) => r == NextStep::Read && final(self).streaming,
                Err(e) => r == NextStep::Fail(e) && final(self).streaming == old(self).streaming,
            },
    {
        match opened {
            Ok(_) => {
                self.streaming = true;
                NextStep::Read
            },
            Err(e) => NextStep::Fail(e),
        }
    }

    /// Stops the watcher.
    pub fn stop(&mut self)
        ensures
            !final(self).streaming,
            final(self).first == old(self).first,
    {
        self.streaming = false;
    }
}

/// What opening a watch on a prefix gave, and asking for its progress.
pub fn settle_watch(prefix: &str, opened: Result<(), String>, progress: Result<(), String>) -> (r:
    Result<(), RegistryError>)
    ensures
        match (opened, progress) {
            (Err(e), _) => crate::registry::failed(r, "etcd watch "@ + prefix@ + ": "@ + e@),
            (Ok(_), Err(e)) => crate::registry::failed(
                r,
                "etcd watch "@ + prefix@ + ": request progress: "@ + e@,
            ),
            (Ok(_), Ok(_)) => r is Ok,
        },
{
    match opened {
        Err(e) => {
            let mut s: String = cat3("etcd watch ", prefix, ": ");
            s.append(e.as_str());
            Err(RegistryError::Failed(s))
        },
        Ok(_) => match progress {
            Err(e) => {
                let mut s: String = cat3("etcd watch ", prefix, ": request progress: ");
                s.append(e.as_str());
                Err(RegistryError::Failed(s))
            },
            Ok(_) => Ok(()),
        },
    }
}

} // verus!
