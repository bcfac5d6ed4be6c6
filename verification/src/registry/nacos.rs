//! Nacos: one registered instance for each endpoint, under the name
//! `{name}.{scheme}`, whose metadata carries the scheme and the version.
use vstd::prelude::*;

use crate::registry::endpoint::{endpoint_url, split_endpoint};
use crate::registry::{Instance, Registration, RegistryError};
use crate::string_map::StringMap;
use crate::text::{cat, cat3};

verus! {

/// What instances are registered with.
#[derive(Debug)]
pub struct NacosOptions {
    /// The cluster.
    pub cluster: String,
    /// The group.
    pub group: String,
    /// The scheme of an instance whose metadata names none.
    pub kind: String,
    /// The weight, as the bits of a double-precision number.
    pub weight_bits: u64,
}

/// The bits of the weight 100.
pub const DEFAULT_WEIGHT_BITS: u64 = 0x4059_0000_0000_0000;

impl Default for NacosOptions {
    fn default() -> (r: Self)
        ensures
            r.cluster@ == "DEFAULT"@,
            r.group@ == "DEFAULT_GROUP"@,
            r.kind@ == "grpc"@,
            r.weight_bits == DEFAULT_WEIGHT_BITS,
    {
        NacosOptions {
            cluster: "DEFAULT".to_owned(),
            group: "DEFAULT_GROUP".to_owned(),
            kind: "grpc".to_owned(),
            weight_bits: DEFAULT_WEIGHT_BITS,
        }
    }
}

impl Clone for NacosOptions {
    fn clone(&self) -> (r: Self)
        ensures
            r.cluster@ == self.cluster@,
            r.group@ == self.group@,
            r.kind@ == self.kind@,
            r.weight_bits == self.weight_bits,
    {
        NacosOptions {
            cluster: self.cluster.clone(),
            group: self.group.clone(),
            kind: self.kind.clone(),
            weight_bits: self.weight_bits,
        }
    }
}

/// The settings that a nacos registry is made from.
#[derive(Debug)]
pub struct NacosSettings {
    /// The server's address.
    pub addr: String,
}

/// An endpoint as it is registered.
#[derive(Debug)]
pub struct NacosEndpoint {
    pub service_name: String,
    pub ip: String,
    pub port: i32,
    /// The weight that the announcement asks for, as a text.
    pub weight: Option<String>,
    pub metadata: StringMap<String>,
}

/// The metadata of an announcement with a scheme and the version laid over it.
pub open spec fn endpoint_metadata(
    r: crate::registry::RegistrationView,
    scheme: Seq<char>,
) -> Map<Seq<char>, Seq<char>> {
    let given = match r.metadata {
        Some(m) => m,
        None => Map::empty(),
    };
    given.insert("kind"@, scheme).insert("version"@, r.instance.version)
}

/// The weight that an announcement asks for.
pub open spec fn asked_weight(r: crate::registry::RegistrationView) -> Option<Seq<char>> {
    match r.metadata {
        Some(m) => if m.contains_key("weight"@) {
            Some(m["weight"@])
        } else {
            None
        },
        None => None,
    }
}

/// An announcement's metadata with a scheme and the version laid over it.
pub fn metadata_with_kind(registration: &Registration, scheme: &str) -> (r: StringMap<String>)
    ensures
        crate::json::map_texts(r@) == endpoint_metadata(registration@, scheme@),
{
    let mut metadata: StringMap<String> = match &registration.metadata {
        Some(m) => crate::json::copy_map(m),
        None => {
            let none: StringMap<String> = StringMap::new();
            assert(crate::json::map_texts(none@) =~= Map::empty());
            none
        },
    };
    metadata.insert("kind".to_owned(), scheme.to_owned());
    metadata.insert("version".to_owned(), registration.instance.version.clone());
    assert(crate::json::map_texts(metadata@) =~= endpoint_metadata(registration@, scheme@));
    metadata
}

/// One endpoint of an announcement as it is registered, and as it is taken
/// off again.
pub fn plan_endpoint(registration: &Registration, endpoint: &str) -> (r: Result<
    NacosEndpoint,
    RegistryError,
>)
    ensures
        match crate::registry::endpoint::endpoint_parts(endpoint@) {
            None => crate::registry::failed(r, "endpoint parse: "@ + endpoint@),
            Some(parts) => {
                &&& r matches Ok(w)
                &&& w.service_name@ == registration@.instance.name + "."@ + parts.scheme
                &&& w.ip@ == parts.host
                &&& w.port == parts.port as i32
                &&& crate::text::opt_text(w.weight) == asked_weight(registration@)
                &&& crate::json::map_texts(w.metadata@) == endpoint_metadata(
                    registration@,
                    parts.scheme,
                )
            },
        },
{
    let parts = match split_endpoint(endpoint) {
        Some(parts) => parts,
        None => {
            return Err(RegistryError::Failed(cat("endpoint parse: ", endpoint)));
        },
    };
    let weight: Option<String> = match &registration.metadata {
        Some(m) => match m.get("weight") {
            Some(w) => Some(w.clone()),
            None => None,
        },
        None => None,
    };
    let metadata = metadata_with_kind(registration, parts.scheme.as_str());
    let port: i32 = #[verifier::truncate]
    (parts.port as i32);
    Ok(
        NacosEndpoint {
            service_name: cat3(registration.instance.name.as_str(), ".", parts.scheme.as_str()),
            ip: parts.host,
            port,
            weight,
            metadata,
        },
    )
}

/// What an operation on a registered endpoint gave: `operation` names it in
/// failures.
pub fn settle_endpoint(
    operation: &str,
    service_name: &str,
    endpoint: &str,
    done: Result<(), String>,
) -> (r: Result<(), RegistryError>)
    ensures
        match done {
            Ok(_) => r is Ok,
            Err(e) => crate::registry::failed(
                r,
                "nacos "@ + operation@ + " "@ + service_name@ + " "@ + endpoint@ + ": "@ + e@,
            ),
        },
{
    match done {
        Ok(_) => Ok(()),
        Err(e) => {
            let mut s: String = cat3("nacos ", operation, " ");
            s.append(service_name);
            s.append(" ");
            s.append(endpoint);
            s.append(": ");
            s.append(e.as_str());
            Err(RegistryError::Failed(s))
        },
    }
}

/// A registered instance as the server lists it, as far as it is read.
#[derive(Debug)]
pub struct ServiceInstance {
    pub instance_id: Option<String>,
    pub service_name: Option<String>,
    pub ip: String,
    pub port: i32,
    pub metadata: StringMap<String>,
}

/// A text, or else another.
pub open spec fn text_or(s: Option<String>, otherwise: Seq<char>) -> Seq<char> {
    match s {
        Some(t) => t@,
        None => otherwise,
    }
}

/// What the metadata holds under a key, or else `otherwise`.
pub open spec fn entry_or(
    m: Map<Seq<char>, Seq<char>>,
    key: Seq<char>,
    otherwise: Seq<char>,
) -> Seq<char> {
    if m.contains_key(key) {
        m[key]
    } else {
        otherwise
    }
}

/// The instance that a listed one stands for.
pub open spec fn listed(
    wire: ServiceInstance,
    default_kind: Seq<char>,
) -> crate::registry::InstanceView {
    let m = crate::json::map_texts(wire.metadata@);
    crate::registry::InstanceView {
        id: text_or(wire.instance_id, Seq::empty()),
        name: text_or(wire.service_name, Seq::empty()),
        version: entry_or(m, "version"@, Seq::empty()),
        endpoints: seq![
            crate::registry::endpoint::endpoint_text(
                entry_or(m, "kind"@, default_kind),
                wire.ip@,
                wire.port as int,
            ),
        ],
    }
}

fn entry(m: &StringMap<String>, key: &str, otherwise: &str) -> (s: String)
    ensures
        s@ == entry_or(crate::json::map_texts(m@), key@, otherwise@),
{
    match m.get(key) {
        Some(v) => v.clone(),
        None => otherwise.to_owned(),
    }
}

fn rebuild_one(wire: &ServiceInstance, default_kind: &str) -> (r: Instance)
    ensures
        r@ == listed(*wire, default_kind@),
{
    let kind = entry(&wire.metadata, "kind", default_kind);
    let mut endpoints: Vec<String> = Vec::new();
    endpoints.push(endpoint_url(kind.as_str(), wire.ip.as_str(), wire.port as i64));
    let id: String = match &wire.instance_id {
        Some(id) => id.clone(),
        None => String::new(),
    };
    let name: String = match &wire.service_name {
        Some(name) => name.clone(),
        None => String::new(),
    };
    let version = entry(&wire.metadata, "version", "");
    proof {
        reveal_strlit("");
        assert(""@ =~= Seq::<char>::empty());
    }
    let r = Instance { id, name, version, endpoints };
    assert(r@.endpoints =~= listed(*wire, default_kind@).endpoints);
    r
}

/// Reads listed instances.
pub fn rebuild(instances: &Vec<ServiceInstance>, default_kind: &str) -> (r: Vec<Instance>)
    ensures
        crate::registry::instance_views(r@) == Seq::new(
            instances@.len(),
            |i: int| listed(instances@[i], default_kind@),
        ),
{
    let mut r: Vec<Instance> = Vec::new();
    let mut i: usize = 0;
    while i < instances.len()
        invariant
            i <= instances@.len(),
            r@.len() == i,
            forall|j: int|
                0 <= j < i ==> (#[trigger] r@[j])@ == listed(instances@[j], default_kind@),
        decreases instances@.len() - i,
    {
        r.push(rebuild_one(&instances[i], default_kind));
        i += 1;
    }
    assert(crate::registry::instance_views(r@) =~= Seq::new(
        instances@.len(),
        |i: int| listed(instances@[i], default_kind@),
    ));
    r
}

/// An endpoint that is listed with the address and metadata it was registered
/// with is read back as that endpoint, with the announced version. It holds
/// of endpoints that are no more than `scheme://host:port`, with a port that
/// fits in 32 bits.
pub proof fn registered_endpoint_reads_back(
    r: crate::registry::RegistrationView,
    endpoint: Seq<char>,
    wire: ServiceInstance,
    default_kind: Seq<char>,
)
    requires
        ({
            let parts = crate::registry::endpoint::endpoint_parts(endpoint)->0;
            &&& crate::registry::endpoint::endpoint_parts(endpoint) is Some
            &&& endpoint == crate::registry::endpoint::endpoint_text(
                parts.scheme,
                parts.host,
                parts.port,
            )
            &&& i32::MIN <= parts.port <= i32::MAX
            &&& wire.ip@ == parts.host
            &&& wire.port == parts.port as i32
            &&& crate::json::map_texts(wire.metadata@) == endpoint_metadata(r, parts.scheme)
        }),
    ensures
        listed(wire, default_kind).endpoints == seq![endpoint],
        listed(wire, default_kind).version == r.instance.version,
{
    reveal_strlit("kind");
    reveal_strlit("version");
    assert("kind"@.len() == 4 && "version"@.len() == 7);
}

/// The metadata of an announcement goes along with each of its endpoints, but
/// for the scheme and the version, which are always the endpoint's own; nothing
/// else is added. The weight is what the metadata says under its name.
pub proof fn metadata_goes_along(
    r: crate::registry::RegistrationView,
    scheme: Seq<char>,
    key: Seq<char>,
)
    ensures
        ({
            let m = endpoint_metadata(r, scheme);
            let given = r.metadata is Some && r.metadata->0.contains_key(key);
            let own = key == "kind"@ || key == "version"@;
            &&& m.contains_key(key) == (given || own)
            &&& given && !own ==> m[key] == r.metadata->0[key]
            &&& key == "kind"@ ==> m[key] == scheme
            &&& key == "version"@ ==> m[key] == r.instance.version
            &&& key == "weight"@ && given ==> asked_weight(r) == Some(r.metadata->0[key])
            &&& key == "weight"@ && !given ==> asked_weight(r) is None
        }),
{
    reveal_strlit("kind");
    reveal_strlit("version");
    assert("kind"@.len() == 4 && "version"@.len() == 7);
}

/// A listed instance has one endpoint, at its own address and port: under the
/// scheme that its metadata names, and under the given one where it names none.
/// What is not there of the rest is empty.
pub proof fn listed_instance_is_read_as_it_is(wire: ServiceInstance, default_kind: Seq<char>)
    ensures
        ({
            let i = listed(wire, default_kind);
            let m = wire.metadata@;
            &&& wire.instance_id matches Some(id) ==> i.id == id@
            &&& wire.instance_id is None ==> i.id.len() == 0
            &&& wire.service_name matches Some(name) ==> i.name == name@
            &&& wire.service_name is None ==> i.name.len() == 0
            &&& m.contains_key("version"@) ==> i.version == m["version"@]@
            &&& !m.contains_key("version"@) ==> i.version.len() == 0
            &&& i.endpoints.len() == 1
            &&& m.contains_key("kind"@) ==> i.endpoints[0]
                == crate::registry::endpoint::endpoint_text(
                m["kind"@]@,
                wire.ip@,
                wire.port as int,
            )
            &&& !m.contains_key("kind"@) ==> i.endpoints[0]
                == crate::registry::endpoint::endpoint_text(
                default_kind,
                wire.ip@,
                wire.port as int,
            )
        }),
{
}

/// A reader of a service's pushed instances.
#[derive(Debug)]
pub struct NacosWatcher {
    /// Nothing has been asked of it yet.
    pub first: bool,
    /// It has been stopped.
    pub stopped: bool,
}

/// How a watcher goes on when it is asked for the next snapshot.
#[derive(Debug)]
pub enum NextStep {
    /// It fails.
    Fail(RegistryError),
    /// It reads the pushed instances.
    Read,
    /// It waits for a push.
    Wait,
}

impl NacosWatcher {
    /// A watcher that nothing has been asked of yet.
    pub fn new() -> (w: NacosWatcher)
        ensures
            w.first && !w.stopped,
    {
        NacosWatcher { first: true, stopped: false }
    }

    /// What asking for the next snapshot leads to: the first is read at once,
    /// stopped or not, and the later ones when a push comes.
    pub fn begin_next(&mut self) -> (r: NextStep)
        ensures
            !final(self).first,
            final(self).stopped == old(self).stopped,
            if old(self).first {
                r == NextStep::Read
            } else if old(self).stopped {
                r matches NextStep::Fail(e) && e.reason() == "watcher stopped"@
            } else {
                r == NextStep::Wait
            },
    {
        if self.first {
            self.first = false;
            NextStep::Read
        } else if self.stopped {
            NextStep::Fail(RegistryError::Failed("watcher stopped".to_owned()))
        } else {
            NextStep::Wait
        }
    }

    /// What a finished wait leads to: a push is read, and where no more will
    /// come the watcher fails.
    pub fn pushed(&self, signal: bool) -> (r: NextStep)
        ensures
            if signal {
                r == NextStep::Read
            } else {
                r matches NextStep::Fail(e) && e.reason() == "watcher stopped"@
            },
    {
        if signal {
            NextStep::Read
        } else {
            NextStep::Fail(RegistryError::Failed("watcher stopped".to_owned()))
        }
    }

    /// Stops the watcher.
    pub fn stop(&mut self)
        ensures
            final(self).stopped,
            final(self).first == old(self).first,
    {
        self.stopped = true;
    }
}

} // verus!
