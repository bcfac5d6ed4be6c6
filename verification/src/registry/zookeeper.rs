//! ZooKeeper: the nodes that a registration consists of, how each is brought
//! into being, and how a service node is watched.
//!
//! The namespace and the service have persistent nodes, the instance has an
//! ephemeral one that holds its JSON. What has to be asked of the ensemble,
//! and what each answer leads to, is decided here one step at a time.
use vstd::prelude::*;

use crate::registry::{
    read_values, registry_json, registry_key, service_prefix, Instance, Registration,
    RegistryError, DEFAULT_NAMESPACE,
};
use crate::string_map::StringMap;
use crate::text::{cat, cat3, decode_lossy};

verus! {

/// The settings that a ZooKeeper registry is made from.
#[derive(Debug)]
pub struct ZookeeperSettings {
    /// Where the ensemble is.
    pub connect_string: String,
    /// The namespace; the default one where it is absent.
    pub namespace: Option<String>,
    /// The user of the digest ACL.
    pub digest_user: Option<String>,
    /// The password of the digest ACL.
    pub digest_password: Option<String>,
}

/// The state of a ZooKeeper registry. `T` is whatever stands for a running
/// keeper task.
pub struct ZookeeperRegistry<T> {
    pub namespace: String,
    /// User and password of the digest ACL that nodes are created with.
    pub digest: Option<(String, String)>,
    /// Keeper tasks by instance path.
    pub tasks: StringMap<T>,
}

impl<T> ZookeeperRegistry<T> {
    /// A registry with the given namespace and digest.
    pub fn connect_with(namespace: &str, digest: Option<(String, String)>) -> (r: Self)
        ensures
            r.namespace@ == namespace@,
            r.digest == digest,
            r.tasks@ == Map::<Seq<char>, T>::empty(),
    {
        ZookeeperRegistry { namespace: namespace.to_owned(), digest, tasks: StringMap::new() }
    }

    /// A registry as its settings ask for it: without a digest where either
    /// half of it is absent.
    pub fn from_settings(settings: ZookeeperSettings) -> (r: Self)
        ensures
            r.namespace@ == match settings.namespace {
                Some(n) => n@,
                None => DEFAULT_NAMESPACE@,
            },
            r.digest == match (settings.digest_user, settings.digest_password) {
                (Some(user), Some(password)) => Some((user, password)),
                _ => None,
            },
            r.tasks@ == Map::<Seq<char>, T>::empty(),
    {
        let digest = match (settings.digest_user, settings.digest_password) {
            (Some(user), Some(password)) => Some((user, password)),
            _ => None,
        };
        match settings.namespace {
            Some(n) => Self::connect_with(n.as_str(), digest),
            None => Self::connect_with(DEFAULT_NAMESPACE, digest),
        }
    }

    /// Remembers the keeper task of an instance. An
    /// earlier one is handed back, to be stopped.
    pub fn keep_task(&mut self, registration: &Registration, task: T) -> (r: Option<T>)
        ensures
            ({
                let key = crate::registry::key_text(
                    old(self).namespace@,
                    registration@.instance.name,
                    registration@.instance.id,
                );
                &&& final(self).tasks@ == old(self).tasks@.insert(key, task)
                &&& r == (if old(self).tasks@.contains_key(key) {
                    Some(old(self).tasks@[key])
                } else {
                    None
                })
            }),
            final(self).namespace == old(self).namespace,
            final(self).digest == old(self).digest,
    {
        let key = registry_key(self.namespace.as_str(), &registration.instance);
        self.tasks.insert(key, task)
    }

    /// Gives the keeper task of an instance up, for it to be stopped.
    pub fn drop_task(&mut self, registration: &Registration) -> (r: Option<T>)
        ensures
            ({
                let key = crate::registry::key_text(
                    old(self).namespace@,
                    registration@.instance.name,
                    registration@.instance.id,
                );
                &&& final(self).tasks@ == old(self).tasks@.remove(key)
                &&& match r {
                    Some(task) => old(self).tasks@.contains_key(key) && task
                        == old(self).tasks@[key],
                    None => !old(self).tasks@.contains_key(key),
                }
            }),
            final(self).namespace == old(self).namespace,
            final(self).digest == old(self).digest,
    {
        let key = registry_key(self.namespace.as_str(), &registration.instance);
        self.tasks.remove(key.as_str())
    }

    /// The credentials of the digest ACL, `{user}:{password}`.
    pub fn digest_credentials(&self) -> (r: Option<String>)
        ensures
            match r {
                Some(s) => self.digest matches Some((user, password)) && s@ == user@ + ":"@
                    + password@,
                None => self.digest is None,
            },
    {
        match &self.digest {
            Some((user, password)) => Some(cat3(user.as_str(), ":", password.as_str())),
            None => None,
        }
    }

    /// The nodes that a registration consists of, in the order in which they
    /// have to be there: the namespace, the service, the instance.
    pub fn nodes(&self, registration: &Registration) -> (r: Vec<NodePlan>)
        ensures
            r@.len() == 3,
            r@[0].path@ == self.namespace@ && r@[0].data@ == ""@ && !r@[0].ephemeral,
            r@[1].path@ == crate::registry::prefix_text(
                self.namespace@,
                registration@.instance.name,
            ) && r@[1].data@ == ""@ && !r@[1].ephemeral,
            r@[2].path@ == crate::registry::key_text(
                self.namespace@,
                registration@.instance.name,
                registration@.instance.id,
            ) && r@[2].data@ == crate::registry::registry_text(registration@) && r@[2].ephemeral,
    {
        let mut nodes: Vec<NodePlan> = Vec::new();
        nodes.push(
            NodePlan { path: self.namespace.clone(), data: "".to_owned(), ephemeral: false },
        );
        nodes.push(
            NodePlan {
                path: service_prefix(
                    self.namespace.as_str(),
                    registration.instance.name.as_str(),
                ),
                data: "".to_owned(),
                ephemeral: false,
            },
        );
        nodes.push(
            NodePlan {
                path: registry_key(self.namespace.as_str(), &registration.instance),
                data: registry_json(registration),
                ephemeral: true,
            },
        );
        nodes
    }
}

/// A node that has to be there.
#[derive(Debug)]
pub struct NodePlan {
    pub path: String,
    pub data: String,
    /// Whether the node goes away with the session.
    pub ephemeral: bool,
}

/// What has been asked of the ensemble about a node.
#[derive(Debug, Clone, Copy, PartialEq, Eq, Structural)]
pub enum EnsurePhase {
    /// Whether the node exists.
    Checking,
    /// To delete a leftover of the node.
    Deleting,
    /// To create the node.
    Creating,
    /// Whether the node, which was there on creation, still exists.
    Rechecking,
}

/// What the ensemble answered.
#[derive(Debug)]
pub enum NodeEvent {
    /// The node exists, at this version.
    Exists(i32),
    /// The node does not exist.
    Absent,
    /// It was done.
    Done,
    /// The node to create is there already.
    AlreadyThere,
    /// It went wrong.
    Failed(String),
}

/// What comes next for a node.
#[derive(Debug)]
pub enum EnsureAction {
    /// Delete the node at this version.
    Delete(i32),
    /// Create the node.
    Create,
    /// Ask again whether the node exists.
    Recheck,
    /// The node is there.
    Finish,
    /// The node could not be brought into being.
    Fail(RegistryError),
}

/// The answers that can come to what was asked.
pub open spec fn answers(phase: EnsurePhase, event: NodeEvent) -> bool {
    match phase {
        EnsurePhase::Checking | EnsurePhase::Rechecking => event is Exists || event is Absent
            || event is Failed,
        EnsurePhase::Deleting => event is Done || event is Absent || event is Failed,
        EnsurePhase::Creating => event is Done || event is AlreadyThere || event is Failed,
    }
}

/// What was asked, as it stands in failures.
pub open spec fn asked(phase: EnsurePhase) -> Seq<char> {
    match phase {
        EnsurePhase::Checking | EnsurePhase::Rechecking => "exists "@,
        EnsurePhase::Deleting => "delete "@,
        EnsurePhase::Creating => "create "@,
    }
}

/// The action that an answer leads to.
pub open spec fn ensure_result(
    phase: EnsurePhase,
    event: NodeEvent,
    path: Seq<char>,
    ephemeral: bool,
    action: EnsureAction,
) -> bool {
    match (phase, event) {
        (_, NodeEvent::Failed(e)) => action matches EnsureAction::Fail(reason) && reason.reason()
            == "zookeeper "@ + asked(phase) + path + ": "@ + e@,
        (EnsurePhase::Checking, NodeEvent::Exists(version)) => if ephemeral {
            action == EnsureAction::Delete(version)
        } else {
            action == EnsureAction::Finish
        },
        (EnsurePhase::Rechecking, NodeEvent::Exists(_)) => action == EnsureAction::Finish,
        (EnsurePhase::Rechecking, NodeEvent::Absent) => action matches EnsureAction::Fail(reason)
            && reason.reason() == "zookeeper create "@ + path + ": node vanished mid-race"@,
        (EnsurePhase::Creating, NodeEvent::AlreadyThere) => action == EnsureAction::Recheck,
        (EnsurePhase::Creating, _) => action == EnsureAction::Finish,
        _ => action == EnsureAction::Create,
    }
}

/// Brings a node into being, one answer at a time. A node that is there is
/// left alone, but for an ephemeral one, whose leftover is deleted first; a
/// node that someone else creates meanwhile will do.
pub fn ensure_name(phase: EnsurePhase, event: NodeEvent, path: &str, ephemeral: bool) -> (action:
    EnsureAction)
    requires
        answers(phase, event),
    ensures
        ensure_result(phase, event, path@, ephemeral, action),
{
    match event {
        NodeEvent::Failed(e) => {
            let mut s: String = "zookeeper ".to_owned();
            match phase {
                EnsurePhase::Checking | EnsurePhase::Rechecking => {
                    s.append("exists ");
                },
                EnsurePhase::Deleting => {
                    s.append("delete ");
                },
                EnsurePhase::Creating => {
                    s.append("create ");
                },
            }
            s.append(path);
            s.append(": ");
            s.append(e.as_str());
            EnsureAction::Fail(RegistryError::Failed(s))
        },
        NodeEvent::Exists(version) => match phase {
            EnsurePhase::Checking => {
                if ephemeral {
                    EnsureAction::Delete(version)
                } else {
                    EnsureAction::Finish
                }
            },
            _ => EnsureAction::Finish,
        },
        NodeEvent::Absent => match phase {
            EnsurePhase::Rechecking => {
                let s = cat3("zookeeper create ", path, ": node vanished mid-race");
                EnsureAction::Fail(RegistryError::Failed(s))
            },
            _ => EnsureAction::Create,
        },
        NodeEvent::AlreadyThere => EnsureAction::Recheck,
        NodeEvent::Done => match phase {
            EnsurePhase::Creating => EnsureAction::Finish,
            _ => EnsureAction::Create,
        },
    }
}

/// The phase that an action leads into; none where the matter is settled.
pub open spec fn phase_after(action: EnsureAction) -> Option<EnsurePhase> {
    match action {
        EnsureAction::Delete(_) => Some(EnsurePhase::Deleting),
        EnsureAction::Create => Some(EnsurePhase::Creating),
        EnsureAction::Recheck => Some(EnsurePhase::Rechecking),
        EnsureAction::Finish | EnsureAction::Fail(_) => None,
    }
}

/// How far a phase is from the end, at most.
pub open spec fn steps_left(phase: EnsurePhase) -> nat {
    match phase {
        EnsurePhase::Checking => 4,
        EnsurePhase::Deleting => 3,
        EnsurePhase::Creating => 2,
        EnsurePhase::Rechecking => 1,
    }
}

/// Bringing a node into being takes four answers at most, and it ends well
/// only where the last answer was that the node is there: for an ephemeral
/// one never on the strength of the first look, so that its node is not a
/// leftover.
pub proof fn ensuring_ends(
    phase: EnsurePhase,
    event: NodeEvent,
    path: Seq<char>,
    ephemeral: bool,
    action: EnsureAction,
)
    requires
        answers(phase, event),
        ensure_result(phase, event, path, ephemeral, action),
    ensures
        phase_after(action) matches Some(next) ==> steps_left(next) < steps_left(phase),
        action is Finish ==> event is Exists || (phase == EnsurePhase::Creating && event is Done),
        action is Finish && ephemeral ==> phase != EnsurePhase::Checking,
        action is Delete ==> ephemeral,
        steps_left(EnsurePhase::Checking) == 4,
{
}

/// A node that is not there is created, and one that is created is there. A
/// leftover of an ephemeral node is deleted, at the version that was seen, and
/// then created, whether it was still there to delete or not; any other node
/// that is there is left alone. A node that someone else created meanwhile is
/// looked at again, and will do where it is there; where it has gone it failed.
pub proof fn each_answer_has_its_consequence(
    phase: EnsurePhase,
    event: NodeEvent,
    path: Seq<char>,
    ephemeral: bool,
    action: EnsureAction,
)
    requires
        answers(phase, event),
        ensure_result(phase, event, path, ephemeral, action),
    ensures
        action is Create <==> (phase == EnsurePhase::Checking && event is Absent) || (phase
            == EnsurePhase::Deleting && !(event is Failed)),
        action is Delete <==> phase == EnsurePhase::Checking && ephemeral && event is Exists,
        action is Delete ==> action->Delete_0 == event->Exists_0,
        action is Recheck <==> phase == EnsurePhase::Creating && event is AlreadyThere,
        action is Finish <==> (phase == EnsurePhase::Creating && event is Done) || (event is Exists
            && (phase == EnsurePhase::Rechecking || (phase == EnsurePhase::Checking
            && !ephemeral))),
        action is Fail <==> event is Failed || (phase == EnsurePhase::Rechecking && event
            is Absent),
        event is Failed && (phase == EnsurePhase::Checking || phase == EnsurePhase::Rechecking)
            ==> action->Fail_0.reason() == "zookeeper "@ + "exists "@ + path + ": "@
            + event->Failed_0@,
        event is Failed && phase == EnsurePhase::Deleting ==> action->Fail_0.reason()
            == "zookeeper "@ + "delete "@ + path + ": "@ + event->Failed_0@,
        event is Failed && phase == EnsurePhase::Creating ==> action->Fail_0.reason()
            == "zookeeper "@ + "create "@ + path + ": "@ + event->Failed_0@,
        event is Absent && phase == EnsurePhase::Rechecking ==> action->Fail_0.reason()
            == "zookeeper create "@ + path + ": node vanished mid-race"@,
{
}

/// What is asked next is what the action does: a deletion leads to waiting for
/// the deletion, a creation for the creation, a second look for its answer, and
/// nothing more is asked once the node is there or could not be brought into
/// being.
pub proof fn asking_follows_the_action(action: EnsureAction)
    ensures
        action is Delete <==> phase_after(action) == Some(EnsurePhase::Deleting),
        action is Create <==> phase_after(action) == Some(EnsurePhase::Creating),
        action is Recheck <==> phase_after(action) == Some(EnsurePhase::Rechecking),
        action is Finish || action is Fail <==> phase_after(action) is None,
{
}

/// A registration under way: its nodes, which of them is being brought into
/// being, and what has been asked about it.
#[derive(Debug)]
pub struct Announcement {
    pub nodes: Vec<NodePlan>,
    pub at: usize,
    pub phase: EnsurePhase,
}

/// What comes next for a registration.
#[derive(Debug)]
pub enum AnnounceAction {
    /// Ask whether the current node exists.
    Check,
    /// Delete the current node at this version.
    Delete(i32),
    /// Create the current node.
    Create,
    /// Ask again whether the current node exists.
    Recheck,
    /// All nodes are there.
    Registered,
    /// A node could not be brought into being.
    Fail(RegistryError),
}

impl Announcement {
    /// There is a node under way.
    pub open spec fn wf(&self) -> bool {
        self.at < self.nodes@.len()
    }

    /// A registration whose first node is to be looked for.
    pub fn start(nodes: Vec<NodePlan>) -> (a: Announcement)
        requires
            nodes@.len() > 0,
        ensures
            a.wf(),
            a.nodes == nodes,
            a.at == 0,
            a.phase == EnsurePhase::Checking,
    {
        Announcement { nodes, at: 0, phase: EnsurePhase::Checking }
    }

    /// What an answer about the current node leads to. When a node is there
    /// the next one is looked for; a node that cannot be brought into being
    /// ends the registration, and the nodes after it are not touched.
    pub fn step(&mut self, event: NodeEvent) -> (r: AnnounceAction)
        requires
            old(self).wf(),
            answers(old(self).phase, event),
        ensures
            final(self).wf(),
            final(self).nodes == old(self).nodes,
            exists|action: EnsureAction|
                #![trigger phase_after(action)]
                {
                    let node = old(self).nodes@[old(self).at as int];
                    &&& ensure_result(old(self).phase, event, node.path@, node.ephemeral, action)
                    &&& match action {
                        EnsureAction::Delete(version) => r == AnnounceAction::Delete(version),
                        EnsureAction::Create => r == AnnounceAction::Create,
                        EnsureAction::Recheck => r == AnnounceAction::Recheck,
                        EnsureAction::Fail(e) => r == AnnounceAction::Fail(e),
                        EnsureAction::Finish => if old(self).at + 1 < old(self).nodes@.len() {
                            r == AnnounceAction::Check
                        } else {
                            r == AnnounceAction::Registered
                        },
                    }
                    &&& match phase_after(action) {
                        Some(next) => final(self).at == old(self).at && final(self).phase == next,
                        None => if r == AnnounceAction::Check {
                            final(self).at == old(self).at + 1 && final(self).phase
                                == EnsurePhase::Checking
                        } else {
                            final(self).at == old(self).at && final(self).phase
                                == old(self).phase
                        },
                    }
                },
    {
        let action = ensure_name(
            self.phase,
            event,
            self.nodes[self.at].path.as_str(),
            self.nodes[self.at].ephemeral,
        );
        let ghost shown = phase_after(action);
        match action {
            EnsureAction::Delete(version) => {
                self.phase = EnsurePhase::Deleting;
                AnnounceAction::Delete(version)
            },
            EnsureAction::Create => {
                self.phase = EnsurePhase::Creating;
                AnnounceAction::Create
            },
            EnsureAction::Recheck => {
                self.phase = EnsurePhase::Rechecking;
                AnnounceAction::Recheck
            },
            EnsureAction::Fail(e) => AnnounceAction::Fail(e),
            EnsureAction::Finish => {
                if self.at < self.nodes.len() - 1 {
                    self.at = self.at + 1;
                    self.phase = EnsurePhase::Checking;
                    AnnounceAction::Check
                } else {
                    AnnounceAction::Registered
                }
            },
        }
    }
}

/// What keeps an instance's node there when the session is established again.
#[derive(Debug, Clone, Copy, PartialEq, Eq, Structural)]
pub struct Keeper {
    /// The session has been connected before.
    pub established: bool,
}

/// When the node is created again, as the session's state changes: whenever the
/// session connects, but for the first time it ever does.
pub open spec fn recreations(established: bool, connected: Seq<bool>) -> Seq<bool>
    decreases connected.len(),
{
    if connected.len() == 0 {
        Seq::empty()
    } else {
        seq![established && connected[0]] + recreations(
            established || connected[0],
            connected.skip(1),
        )
    }
}

/// Once the session has been connected, the node is created again whenever it
/// connects, the first time included.
pub proof fn every_connection_recreates(connected: Seq<bool>)
    ensures
        recreations(true, connected) == connected,
    decreases connected.len(),
{
    if connected.len() > 0 {
        every_connection_recreates(connected.skip(1));
        assert(seq![connected[0]] + connected.skip(1) =~= connected);
    } else {
        assert(recreations(true, connected) =~= connected);
    }
}

/// Each change of the session's state is judged by itself and by those before
/// it: the node is created again exactly where the session connects and has been
/// connected before.
pub proof fn node_is_recreated_on_reconnecting(established: bool, connected: Seq<bool>, i: int)
    requires
        0 <= i < connected.len(),
    ensures
        recreations(established, connected).len() == connected.len(),
        recreations(established, connected)[i] <==> connected[i] && (established || exists|j: int|
            0 <= j < i && #[trigger] connected[j]),
    decreases connected.len(),
{
    let rest = connected.skip(1);
    if connected.len() == 1 {
        assert(recreations(established || connected[0], rest).len() == 0);
    } else {
        let k: int = if i > 0 {
            i - 1
        } else {
            0
        };
        node_is_recreated_on_reconnecting(established || connected[0], rest, k);
        if i > 0 {
            assert(recreations(established, connected)[i] == recreations(
                established || connected[0],
                rest,
            )[k]);
            if exists|j: int| 0 <= j < k && #[trigger] rest[j] {
                let j = choose|j: int| 0 <= j < k && #[trigger] rest[j];
                assert(connected[j + 1]);
            }
            if exists|j: int| 0 <= j < i && #[trigger] connected[j] {
                let j = choose|j: int| 0 <= j < i && #[trigger] connected[j];
                if j > 0 {
                    assert(rest[j - 1]);
                }
            }
        }
    }
}

impl Keeper {
    /// The keeper of an instance that has just been registered, over a session
    /// that is connected.
    pub fn start() -> (r: Keeper)
        ensures
            r.established,
    {
        Keeper { established: true }
    }

    /// Takes a change of the session's state. Hands back whether the
    /// instance's node has to be created again, which is so whenever the
    /// session connects, but for the first time it ever does.
    pub fn changed(&mut self, connected: bool) -> (again: bool)
        ensures
            again == (old(self).established && connected),
            final(self).established == (old(self).established || connected),
            forall|later: Seq<bool>|
                recreations(old(self).established, seq![connected] + later) == seq![again]
                    + #[trigger] recreations(final(self).established, later),
    {
        let again: bool = self.established && connected;
        self.established = self.established || connected;
        proof {
            assert forall|later: Seq<bool>|
                recreations(old(self).established, seq![connected] + later) == seq![again]
                    + #[trigger] recreations(self.established, later) by {
                assert((seq![connected] + later).skip(1) =~= later);
                assert((seq![connected] + later)[0] == connected);
            }
        }
        again
    }
}

/// What arming the watch of a service node has come to.
#[derive(Debug)]
pub enum ArmEvent {
    /// The watch is armed.
    Armed,
    /// The service node does not exist.
    Absent,
    /// Arming went wrong.
    Failed(String),
}

/// What comes next for the watch of a service node.
#[derive(Debug)]
pub enum WatchAction {
    /// Watch for the node to be created.
    ArmExists,
    /// Wait for the watch to fire.
    Wait,
    /// Tell the watcher, and end.
    Fatal(String),
}

/// What arming the watch on a service node's children leads to: while the
/// node is absent, its creation is watched for instead.
pub fn children_armed(prefix: &str, event: ArmEvent) -> (r: WatchAction)
    ensures
        match event {
            ArmEvent::Armed => r == WatchAction::Wait,
            ArmEvent::Absent => r == WatchAction::ArmExists,
            ArmEvent::Failed(e) => r matches WatchAction::Fatal(s) && s@ == "zookeeper watch "@
                + prefix@ + ": arm failed: "@ + e@,
        },
{
    match event {
        ArmEvent::Armed => WatchAction::Wait,
        ArmEvent::Absent => WatchAction::ArmExists,
        ArmEvent::Failed(e) => {
            let mut s: String = cat3("zookeeper watch ", prefix, ": arm failed: ");
            s.append(e.as_str());
            WatchAction::Fatal(s)
        },
    }
}

/// What arming the watch on a service node's creation leads to.
pub fn exists_armed(prefix: &str, armed: bool) -> (r: WatchAction)
    ensures
        if armed {
            r == WatchAction::Wait
        } else {
            r matches WatchAction::Fatal(s) && s@ == "zookeeper watch "@ + prefix@
                + ": exists arm failed"@
        },
{
    if armed {
        WatchAction::Wait
    } else {
        WatchAction::Fatal(cat3("zookeeper watch ", prefix, ": exists arm failed"))
    }
}

/// Whether a watch that has fired is armed again: `fired` tells whether it
/// fired at all, `heard` whether there is still a watcher to tell.
pub fn rearms(fired: bool, heard: bool) -> (r: bool)
    ensures
        r == (fired && heard),
{
    fired && heard
}

/// The states of a session that a firing watch reports.
#[derive(Debug, Clone, Copy, PartialEq, Eq, Structural)]
pub enum KeeperState {
    Disconnected,
    SyncConnected,
    AuthFailed,
    ConnectedReadOnly,
    SaslAuthenticated,
    Expired,
}

/// What a watch tells its watcher.
#[derive(Debug)]
pub enum WatchSignal {
    /// It fired, the session being in this state.
    Event(KeeperState),
    /// It could not be armed, and has ended.
    Fatal(String),
}

/// A reader of a service node.
#[derive(Debug)]
pub struct ZookeeperWatcher {
    /// Nothing has been asked of it yet.
    pub first: bool,
    /// It has been stopped.
    pub stopped: bool,
}

/// How a watcher goes on when it is asked for the next snapshot.
#[derive(Debug)]
pub enum NextStep {
    /// It fails.
    Fail(RegistryError),
    /// It reads the service's instances.
    Read,
    /// It waits for its watch.
    Wait,
}

impl ZookeeperWatcher {
    /// A watcher that nothing has been asked of yet.
    pub fn new() -> (w: ZookeeperWatcher)
        ensures
            w.first && !w.stopped,
    {
        ZookeeperWatcher { first: true, stopped: false }
    }

    /// What asking for the next snapshot leads to: the first is read at once,
    /// stopped or not, and the later ones when the watch fires.
    pub fn begin_next(&mut self) -> (r: NextStep)
        ensures
            !final(self).first,
            final(self).stopped == old(self).stopped,
            if old(self).first {
                r == NextStep::Read
            } else if old(self).stopped {
                r matches NextStep::Fail(e) && e.reason() == "watcher stopped"@
            } else {
                r == NextStep::Wait
            },
    {
        if self.first {
            self.first = false;
            NextStep::Read
        } else if self.stopped {
            NextStep::Fail(RegistryError::Failed("watcher stopped".to_owned()))
        } else {
            NextStep::Wait
        }
    }

    /// What a signal leads to; no signal means that the watch has gone.
    pub fn signalled(&self, signal: Option<WatchSignal>) -> (r: NextStep)
        ensures
            match signal {
                None => r matches NextStep::Fail(e) && e.reason() == "watcher stopped"@,
                Some(WatchSignal::Fatal(s)) => r matches NextStep::Fail(e) && e.reason() == s@,
                Some(WatchSignal::Event(KeeperState::Disconnected)) => r matches NextStep::Fail(e)
                    && e.reason() == "watcher stopped: connection lost"@,
                Some(WatchSignal::Event(KeeperState::Expired)) => r matches NextStep::Fail(e)
                    && e.reason() == "zookeeper watch: session state "@ + "Expired"@,
                Some(WatchSignal::Event(KeeperState::AuthFailed)) => r matches NextStep::Fail(e)
                    && e.reason() == "zookeeper watch: session state "@ + "AuthFailed"@,
                Some(WatchSignal::Event(_)) => r == NextStep::Read,
            },
    {
        match signal {
            None => NextStep::Fail(RegistryError::Failed("watcher stopped".to_owned())),
            Some(WatchSignal::Fatal(s)) => NextStep::Fail(RegistryError::Failed(s)),
            Some(WatchSignal::Event(state)) => match state {
                KeeperState::Disconnected => NextStep::Fail(
                    RegistryError::Failed("watcher stopped: connection lost".to_owned()),
                ),
                KeeperState::Expired => NextStep::Fail(
                    RegistryError::Failed(cat("zookeeper watch: session state ", "Expired")),
                ),
                KeeperState::AuthFailed => NextStep::Fail(
                    RegistryError::Failed(cat("zookeeper watch: session state ", "AuthFailed")),
                ),
                _ => NextStep::Read,
            },
        }
    }

    /// Stops the watcher.
    pub fn stop(&mut self)
        ensures
            final(self).stopped,
            final(self).first == old(self).first,
    {
        self.stopped = true;
    }
}

/// The path of a service node's child.
pub fn child_path(prefix: &str, child: &str) -> (s: String)
    ensures
        s@ == prefix@ + "/"@ + child@,
{
    cat3(prefix, "/", child)
}

/// A child of a service node: its name, and its data or the reason why there
/// is none.
#[derive(Debug)]
pub struct ChildNode {
    pub name: String,
    pub data: Result<Vec<u8>, String>,
}

/// What a child's data says, or why that is not known.
pub open spec fn child_value(prefix: Seq<char>, child: ChildNode) -> Result<Seq<char>, Seq<char>> {
    match child.data {
        Ok(bytes) => Ok(crate::text::lossy_text(bytes@)),
        Err(e) => Err("zookeeper get "@ + (prefix + "/"@ + child.name@) + ": "@ + e@),
    }
}

/// What the data of children says.
pub open spec fn child_values(prefix: Seq<char>, children: Seq<ChildNode>) -> Seq<
    Result<Seq<char>, Seq<char>>,
> {
    Seq::new(children.len(), |i: int| child_value(prefix, children[i]))
}

/// The children hold what was written for these announcements.
pub open spec fn children_written(
    children: Seq<ChildNode>,
    written: Seq<crate::registry::RegistrationView>,
) -> bool {
    &&& children.len() == written.len()
    &&& forall|i: int|
        0 <= i < children.len() ==> (#[trigger] children[i]).data is Ok
            && children[i].data->Ok_0@ == vstd::utf8::encode_utf8(
            crate::registry::registry_text(written[i]),
        ) && crate::registry::is_storable(written[i])
}

/// Reads the children of a service node, keeping the instances with the name
/// asked for. The first child without data, or whose data cannot be read,
/// makes the whole fail. Announcements that were written are read back as they
/// were.
#[verifier::loop_isolation(false)]
pub fn read_instances(
    prefix: &str,
    listed: Result<Vec<ChildNode>, String>,
    name: Option<&str>,
) -> (r: Result<Vec<Instance>, RegistryError>)
    ensures
        match listed {
            Err(e) => crate::registry::failed(r, "zookeeper children "@ + prefix@ + ": "@ + e@),
            Ok(children) => {
                let wanted = match name {
                    Some(n) => Some(n@),
                    None => None,
                };
                &&& crate::registry::read_values_as(child_values(prefix@, children@), wanted)
                    == match r {
                    Ok(l) => Ok::<_, Seq<char>>(crate::registry::instance_views(l@)),
                    Err(e) => Err(e.reason()),
                }
                &&& forall|written: Seq<crate::registry::RegistrationView>| #[trigger]
                    children_written(children@, written) ==> (r matches Ok(l)
                        && crate::registry::instance_views(l@) == crate::registry::announced_as(
                        written,
                        wanted,
                    ))
            },
        },
{
    let children = match listed {
        Err(e) => {
            return Err(
                RegistryError::Failed(
                    cat(cat3("zookeeper children ", prefix, ": ").as_str(), e.as_str()),
                ),
            );
        },
        Ok(children) => children,
    };
    let mut values: Vec<Result<String, String>> = Vec::new();
    let ghost said = child_values(prefix@, children@);
    let mut i: usize = 0;
    while i < children.len()
        invariant
            i <= children@.len(),
            values@.len() == i,
            forall|j: int|
                0 <= j < i ==> crate::json::text_outcome(#[trigger] values@[j]) == said[j],
            forall|j: int|
                0 <= j < i && (#[trigger] children@[j]).data is Ok && vstd::utf8::valid_utf8(
                    children@[j].data->Ok_0@,
                ) ==> said[j] == Ok::<_, Seq<char>>(
                    vstd::utf8::decode_utf8(children@[j].data->Ok_0@),
                ),
        decreases children@.len() - i,
    {
        let value: Result<String, String> = match &children[i].data {
            Ok(bytes) => Ok(decode_lossy(bytes.as_slice())),
            Err(e) => {
                let path = child_path(prefix, children[i].name.as_str());
                Err(cat(cat3("zookeeper get ", path.as_str(), ": ").as_str(), e.as_str()))
            },
        };
        values.push(value);
        i += 1;
    }
    proof {
        assert(crate::registry::value_views(values@) =~= said);
        assert forall|written: Seq<crate::registry::RegistrationView>| #[trigger]
            children_written(children@, written) implies crate::registry::are_written(
            said,
            written,
        ) by {
            assert forall|j: int| 0 <= j < said.len() implies #[trigger] said[j] == Ok::<
                Seq<char>,
                Seq<char>,
            >(crate::registry::registry_text(written[j])) && crate::registry::is_storable(
                written[j],
            ) by {
                let text = crate::registry::registry_text(written[j]);
                assert(children@[j].data is Ok);
                vstd::utf8::encode_utf8_valid_utf8(text);
                vstd::utf8::encode_utf8_decode_utf8(text);
            }
        }
    }
    read_values(&values, name)
}

/// What a child's data says is known where there is data, child by child and in
/// their order; where there is none, the failure names the child's path.
pub proof fn children_are_read_one_by_one(prefix: Seq<char>, children: Seq<ChildNode>, i: int)
    requires
        0 <= i < children.len(),
    ensures
        child_values(prefix, children).len() == children.len(),
        children[i].data matches Ok(bytes) ==> child_values(prefix, children)[i] == Ok::<
            Seq<char>,
            Seq<char>,
        >(crate::text::lossy_text(bytes@)),
        children[i].data matches Err(e) ==> child_values(prefix, children)[i] == Err::<
            Seq<char>,
            Seq<char>,
        >("zookeeper get "@ + (prefix + "/"@ + children[i].name@) + ": "@ + e@),
{
}

} // verus!
