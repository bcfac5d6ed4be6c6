//! Polaris: one registered instance for each endpoint, under the name
//! `{name}{scheme}`, whose metadata carries the scheme and the version; the
//! envelope that every reply comes in; and the poll behind watchers.
use vstd::prelude::*;

use crate::json::{
    pair_value, pairs_of, push_member, push_text, read_bool, read_error, read_list, read_members,
    read_text, read_text_map, read_u64, write_object, write_text_map,
};
use crate::registry::endpoint::split_endpoint;
use crate::registry::nacos::metadata_with_kind;
use crate::registry::snapshots::Snapshots;
use crate::registry::{Instance, Registration, RegistryError};
use crate::string_map::StringMap;
use crate::text::{cat, cat3, decimal_text, signed_decimal_text, trim_end_slashes};

verus! {

/// The code of a reply that tells of success.
pub const CODE_SUCCESS: u32 = 200_000;

/// The namespace where none is given.
pub const DEFAULT_NAMESPACE: &'static str = "default";

/// The weight that instances are registered with.
pub const DEFAULT_WEIGHT: u32 = 100;

/// How often a watched service is polled, in seconds.
pub const POLL_SECS: u64 = 5;

/// The settings that a polaris registry is made from.
#[derive(Debug)]
pub struct PolarisSettings {
    /// The server's address.
    pub addr: String,
    /// The namespace; the default one where it is absent.
    pub namespace: Option<String>,
}

/// The state of a polaris registry.
pub struct PolarisRegistry {
    pub base: String,
    pub namespace: String,
    pub weight: u32,
    /// The latest snapshot of each watched service.
    pub sets: Snapshots,
}

/// The request that registers an endpoint.
#[derive(Debug)]
pub struct RegisterRequest {
    pub service: String,
    pub namespace: String,
    pub host: String,
    pub port: i64,
    pub weight: u32,
    pub version: String,
    pub metadata: StringMap<String>,
}

/// The request for a service's instances.
#[derive(Debug)]
pub struct DiscoverRequest {
    pub kind: String,
    pub service: String,
    pub namespace: String,
}

/// The body of a request that registers an endpoint; members stand in the order
/// of their names.
pub open spec fn register_text(r: RegisterRequest) -> Seq<char> {
    crate::json::object_text(
        seq![
            ("host"@, crate::json::json_quoted(r.host@)),
            ("metadata"@, crate::json::json_text_map(crate::json::map_texts(r.metadata@))),
            ("namespace"@, crate::json::json_quoted(r.namespace@)),
            ("port"@, crate::text::signed_decimal(r.port as int)),
            ("service"@, crate::json::json_quoted(r.service@)),
            ("version"@, crate::json::json_quoted(r.version@)),
            ("weight"@, crate::text::decimal(r.weight as nat)),
        ],
    )
}

/// The body of a request that takes an endpoint off again; members stand in the
/// order of their names.
pub open spec fn deregister_text(r: RegisterRequest) -> Seq<char> {
    crate::json::object_text(
        seq![
            ("host"@, crate::json::json_quoted(r.host@)),
            ("namespace"@, crate::json::json_quoted(r.namespace@)),
            ("port"@, crate::text::signed_decimal(r.port as int)),
            ("service"@, crate::json::json_quoted(r.service@)),
        ],
    )
}

impl RegisterRequest {
    /// Writes the body that registers the endpoint as JSON.
    pub fn body(&self) -> (s: String)
        ensures
            s@ == register_text(*self),
    {
        let mut members: Vec<(String, String)> = Vec::new();
        push_text(&mut members, "host", self.host.as_str());
        push_member(&mut members, "metadata", write_text_map(pairs_of(&self.metadata)));
        push_text(&mut members, "namespace", self.namespace.as_str());
        push_member(&mut members, "port", signed_decimal_text(self.port));
        push_text(&mut members, "service", self.service.as_str());
        push_text(&mut members, "version", self.version.as_str());
        push_member(&mut members, "weight", decimal_text(self.weight as u64));
        assert(crate::json::pair_texts(members@) =~= seq![
            ("host"@, crate::json::json_quoted(self.host@)),
            ("metadata"@, crate::json::json_text_map(crate::json::map_texts(self.metadata@))),
            ("namespace"@, crate::json::json_quoted(self.namespace@)),
            ("port"@, crate::text::signed_decimal(self.port as int)),
            ("service"@, crate::json::json_quoted(self.service@)),
            ("version"@, crate::json::json_quoted(self.version@)),
            ("weight"@, crate::text::decimal(self.weight as nat)),
        ]);
        write_object(&members)
    }

    /// Writes the body that takes the endpoint off again as JSON.
    pub fn removal_body(&self) -> (s: String)
        ensures
            s@ == deregister_text(*self),
    {
        let mut members: Vec<(String, String)> = Vec::new();
        push_text(&mut members, "host", self.host.as_str());
        push_text(&mut members, "namespace", self.namespace.as_str());
        push_member(&mut members, "port", signed_decimal_text(self.port));
        push_text(&mut members, "service", self.service.as_str());
        assert(crate::json::pair_texts(members@) =~= seq![
            ("host"@, crate::json::json_quoted(self.host@)),
            ("namespace"@, crate::json::json_quoted(self.namespace@)),
            ("port"@, crate::text::signed_decimal(self.port as int)),
            ("service"@, crate::json::json_quoted(self.service@)),
        ]);
        write_object(&members)
    }
}

/// The body of a request for a service's instances; members stand in the order
/// of their names.
pub open spec fn discover_text(service: Seq<char>, namespace: Seq<char>, kind: Seq<char>) -> Seq<
    char,
> {
    crate::json::object_text(
        seq![
            (
                "service"@,
                crate::json::object_text(
                    seq![
                        ("name"@, crate::json::json_quoted(service)),
                        ("namespace"@, crate::json::json_quoted(namespace)),
                    ],
                ),
            ),
            ("type"@, crate::json::json_quoted(kind)),
        ],
    )
}

impl DiscoverRequest {
    /// Writes the body of the request as JSON.
    pub fn body(&self) -> (s: String)
        ensures
            s@ == discover_text(self.service@, self.namespace@, self.kind@),
    {
        let mut service: Vec<(String, String)> = Vec::new();
        push_text(&mut service, "name", self.service.as_str());
        push_text(&mut service, "namespace", self.namespace.as_str());
        assert(crate::json::pair_texts(service@) =~= seq![
            ("name"@, crate::json::json_quoted(self.service@)),
            ("namespace"@, crate::json::json_quoted(self.namespace@)),
        ]);
        let mut members: Vec<(String, String)> = Vec::new();
        push_member(&mut members, "service", write_object(&service));
        push_text(&mut members, "type", self.kind.as_str());
        assert(crate::json::pair_texts(members@) =~= seq![
            ("service"@, crate::json::object_text(crate::json::pair_texts(service@))),
            ("type"@, crate::json::json_quoted(self.kind@)),
        ]);
        write_object(&members)
    }
}

impl PolarisRegistry {
    /// A registry on the server at `addr`, with the default namespace.
    pub fn connect(addr: &str) -> (r: Result<PolarisRegistry, RegistryError>)
        ensures
            r matches Ok(registry) && registry.base@ == crate::text::without_trailing_slashes(
                addr@,
            ) && registry.namespace@ == DEFAULT_NAMESPACE@ && registry.weight == DEFAULT_WEIGHT
                && registry.sets@ == Map::<
                Seq<char>,
                Seq<crate::registry::InstanceView>,
            >::empty(),
    {
        Self::connect_with(addr, DEFAULT_NAMESPACE)
    }

    /// A registry on the server at `addr`.
    pub fn connect_with(addr: &str, namespace: &str) -> (r: Result<PolarisRegistry, RegistryError>)
        ensures
            r matches Ok(registry) && registry.base@ == crate::text::without_trailing_slashes(
                addr@,
            ) && registry.namespace@ == namespace@ && registry.weight == DEFAULT_WEIGHT
                && registry.sets@ == Map::<
                Seq<char>,
                Seq<crate::registry::InstanceView>,
            >::empty(),
    {
        Ok(
            PolarisRegistry {
                base: trim_end_slashes(addr),
                namespace: namespace.to_owned(),
                weight: DEFAULT_WEIGHT,
                sets: Snapshots::new(),
            },
        )
    }

    /// A registry as its settings ask for it.
    pub fn from_settings(settings: &PolarisSettings) -> (r: Result<PolarisRegistry, RegistryError>)
        ensures
            r matches Ok(registry) && registry.base@ == crate::text::without_trailing_slashes(
                settings.addr@,
            ) && registry.namespace@ == match settings.namespace {
                Some(n) => n@,
                None => DEFAULT_NAMESPACE@,
            } && registry.weight == DEFAULT_WEIGHT && registry.sets@ == Map::<
                Seq<char>,
                Seq<crate::registry::InstanceView>,
            >::empty(),
    {
        match &settings.namespace {
            Some(n) => Self::connect_with(settings.addr.as_str(), n.as_str()),
            None => Self::connect_with(settings.addr.as_str(), DEFAULT_NAMESPACE),
        }
    }

    /// The address of a request.
    pub fn request_url(&self, path: &str) -> (s: String)
        ensures
            s@ == self.base@ + "/v1/"@ + path@,
    {
        cat3(self.base.as_str(), "/v1/", path)
    }

    /// One endpoint of an announcement as it is registered; taking it off
    /// again goes by the service, the namespace, the host and the port.
    pub fn plan_endpoint(&self, registration: &Registration, endpoint: &str) -> (r: Result<
        RegisterRequest,
        RegistryError,
    >)
        ensures
            match crate::registry::endpoint::endpoint_parts(endpoint@) {
                None => crate::registry::failed(r, "endpoint parse: "@ + endpoint@),
                Some(parts) => {
                    &&& r matches Ok(w)
                    &&& w.service@ == registration@.instance.name + parts.scheme
                    &&& w.namespace@ == self.namespace@
                    &&& w.host@ == parts.host
                    &&& w.port == parts.port
                    &&& w.weight == self.weight
                    &&& w.version@ == registration@.instance.version
                    &&& crate::json::map_texts(w.metadata@)
                        == crate::registry::nacos::endpoint_metadata(registration@, parts.scheme)
                },
            },
    {
        let parts = match split_endpoint(endpoint) {
            Some(parts) => parts,
            None => {
                return Err(RegistryError::Failed(cat("endpoint parse: ", endpoint)));
            },
        };
        Ok(
            RegisterRequest {
                service: cat(registration.instance.name.as_str(), parts.scheme.as_str()),
                namespace: self.namespace.clone(),
                metadata: metadata_with_kind(registration, parts.scheme.as_str()),
                host: parts.host,
                port: parts.port,
                weight: self.weight,
                version: registration.instance.version.clone(),
            },
        )
    }

    /// The request for a service's instances.
    pub fn discover_body(&self, service_name: &str) -> (r: DiscoverRequest)
        ensures
            r.kind@ == "INSTANCE"@,
            r.service@ == service_name@,
            r.namespace@ == self.namespace@,
    {
        DiscoverRequest {
            kind: "INSTANCE".to_owned(),
            service: service_name.to_owned(),
            namespace: self.namespace.clone(),
        }
    }

    /// One turn of the poll of a watched service: a list that differs from
    /// the last is broadcast, a failed poll changes nothing. True where the
    /// list was broadcast.
    pub fn poll(
        &mut self,
        service_name: &str,
        polled: Result<Vec<Instance>, RegistryError>,
    ) -> (changed: bool)
        ensures
            match polled {
                Ok(l) => {
                    let now = crate::registry::instance_views(l@);
                    &&& changed == (old(self).sets@.contains_key(service_name@)
                        && old(self).sets@[service_name@] != now)
                    &&& final(self).sets@ == if changed {
                        old(self).sets@.insert(service_name@, now)
                    } else {
                        old(self).sets@
                    }
                },
                Err(_) => !changed && final(self).sets@ == old(self).sets@,
            },
            final(self).base == old(self).base,
            final(self).namespace == old(self).namespace,
            final(self).weight == old(self).weight,
    {
        match polled {
            Ok(l) => self.sets.publish_change(service_name, l),
            Err(_) => false,
        }
    }
}

/// What a reply's code and information mean: any code but the one of success
/// is a failure. A missing code counts as 0, and of a larger one the low 32
/// bits count.
pub fn check_envelope(path: &str, code: Option<u64>, info: Option<String>) -> (r: Result<
    (),
    RegistryError,
>)
    ensures
        ({
            let low = match code {
                Some(n) => n as u32,
                None => 0u32,
            };
            if low == CODE_SUCCESS {
                r is Ok
            } else {
                crate::registry::failed(
                    r,
                    "polaris "@ + path@ + ": code "@ + crate::text::decimal(low as nat) + ": "@
                        + crate::registry::servicecomb::or_empty(info),
                )
            }
        }),
{
    let low: u32 = match code {
        Some(n) => #[verifier::truncate]
        (n as u32),
        None => 0,
    };
    if low == CODE_SUCCESS {
        return Ok(());
    }
    let mut s: String = cat3("polaris ", path, ": code ");
    s.append(decimal_text(low as u64).as_str());
    s.append(": ");
    match &info {
        Some(t) => {
            s.append(t.as_str());
        },
        None => {
            assert(s@ =~= s@ + Seq::<char>::empty());
        },
    }
    Err(RegistryError::Failed(s))
}

/// The members of an object, none where the text is no object.
pub open spec fn members_or_none(t: Seq<char>) -> Map<Seq<char>, Seq<char>> {
    match crate::json::json_members(t) {
        Ok(Some(m)) => m,
        _ => Map::empty(),
    }
}

fn members(t: &str) -> (r: Vec<(String, String)>)
    ensures
        crate::json::pairs_map(r@) == members_or_none(t@),
{
    match read_members(t) {
        Ok(Some(pairs)) => pairs,
        _ => {
            let none: Vec<(String, String)> = Vec::new();
            assert(crate::json::pair_texts(none@) =~= Seq::empty());
            none
        },
    }
}

/// A member read as a string.
pub open spec fn text_member(m: Map<Seq<char>, Seq<char>>, key: Seq<char>) -> Option<Seq<char>> {
    if m.contains_key(key) {
        match crate::json::json_as_text(m[key]) {
            Ok(s) => Some(s),
            Err(_) => None,
        }
    } else {
        None
    }
}

/// A member read as an unsigned number.
pub open spec fn number_member(m: Map<Seq<char>, Seq<char>>, key: Seq<char>) -> Option<u64> {
    if m.contains_key(key) {
        crate::json::json_as_u64(m[key])
    } else {
        None
    }
}

fn read_text_member(pairs: &Vec<(String, String)>, key: &str) -> (r: Option<String>)
    ensures
        crate::text::opt_text(r) == text_member(crate::json::pairs_map(pairs@), key@),
{
    match pair_value(pairs, key) {
        Some(t) => match read_text(t.as_str()) {
            Ok(s) => Some(s),
            Err(_) => None,
        },
        None => None,
    }
}

fn read_number_member(pairs: &Vec<(String, String)>, key: &str) -> (r: Option<u64>)
    ensures
        r == number_member(crate::json::pairs_map(pairs@), key@),
{
    match pair_value(pairs, key) {
        Some(t) => read_u64(t.as_str()),
        None => None,
    }
}

/// The low 32 bits of a reply's code.
pub open spec fn reply_code(m: Map<Seq<char>, Seq<char>>) -> u32 {
    match number_member(m, "code"@) {
        Some(n) => n as u32,
        None => 0u32,
    }
}

/// The information of a reply.
pub open spec fn reply_info(m: Map<Seq<char>, Seq<char>>) -> Seq<char> {
    match text_member(m, "info"@) {
        Some(s) => s,
        None => Seq::empty(),
    }
}

/// What the reply to the request at `path` gives: its members, where it is
/// JSON and its code tells of success.
pub fn accept_reply(path: &str, text: &str) -> (r: Result<Vec<(String, String)>, RegistryError>)
    ensures
        match crate::json::json_error(text@) {
            Some(e) => crate::registry::failed(r, "polaris "@ + path@ + ": parse: "@ + e),
            None => {
                let m = members_or_none(text@);
                if reply_code(m) == CODE_SUCCESS {
                    r matches Ok(pairs) && crate::json::pairs_map(pairs@) == m
                } else {
                    crate::registry::failed(
                        r,
                        "polaris "@ + path@ + ": code "@ + crate::text::decimal(
                            reply_code(m) as nat,
                        ) + ": "@ + reply_info(m),
                    )
                }
            },
        },
{
    if let Some(e) = read_error(text) {
        let mut s: String = cat3("polaris ", path, ": parse: ");
        s.append(e.as_str());
        return Err(RegistryError::Failed(s));
    }
    let pairs = members(text);
    let code = read_number_member(&pairs, "code");
    let info = read_text_member(&pairs, "info");
    check_envelope(path, code, info)?;
    Ok(pairs)
}

/// A discovered instance, as far as it is read.
#[derive(Debug)]
pub struct DiscoveredInstance {
    pub healthy: Option<bool>,
    pub id: String,
    pub host: String,
    pub port: u64,
    pub metadata: Vec<(String, String)>,
}

/// What a [`DiscoveredInstance`] holds.
pub struct DiscoveredView {
    pub healthy: Option<bool>,
    pub id: Seq<char>,
    pub host: Seq<char>,
    pub port: nat,
    pub metadata: Map<Seq<char>, Seq<char>>,
}

impl View for DiscoveredInstance {
    type V = DiscoveredView;

    open spec fn view(&self) -> DiscoveredView {
        DiscoveredView {
            healthy: self.healthy,
            id: self.id@,
            host: self.host@,
            port: self.port as nat,
            metadata: crate::json::pairs_map(self.metadata@),
        }
    }
}

/// What a discovered instance stands for: nothing where it is known to be
/// unhealthy, or lacks an id or a host.
pub open spec fn discovered(
    wire: DiscoveredView,
    service_name: Seq<char>,
) -> Option<crate::registry::InstanceView> {
    if wire.healthy == Some(false) || wire.id.len() == 0 || wire.host.len() == 0 {
        None
    } else {
        Some(
            crate::registry::InstanceView {
                id: wire.id,
                name: service_name,
                version: crate::registry::kubernetes::entry_or_empty(wire.metadata, "version"@),
                endpoints: seq![
                    crate::registry::kubernetes::entry_or_empty(wire.metadata, "kind"@) + "://"@
                        + wire.host + ":"@ + crate::text::decimal(wire.port),
                ],
            },
        )
    }
}

fn pair_or_empty(pairs: &Vec<(String, String)>, key: &str) -> (s: String)
    ensures
        s@ == crate::registry::kubernetes::entry_or_empty(
            crate::json::pairs_map(pairs@),
            key@,
        ),
{
    match pair_value(pairs, key) {
        Some(v) => v.clone(),
        None => String::new(),
    }
}

/// The result of reading a discovered instance, in views.
pub open spec fn discovered_outcome(r: Option<Instance>) -> Option<
    crate::registry::InstanceView,
> {
    match r {
        Some(i) => Some(i@),
        None => None,
    }
}

/// What came back is what it is: an instance is one with its parts, and nothing
/// is nothing.
pub proof fn outcome_is_what_came_back(r: Option<Instance>)
    ensures
        r matches Some(i) ==> discovered_outcome(r) == Some(i@),
        r is None ==> discovered_outcome(r) is None,
{
}

/// Reads a discovered instance of `service_name`.
pub fn rebuild_one(wire: &DiscoveredInstance, service_name: &str) -> (r: Option<Instance>)
    ensures
        discovered_outcome(r) == discovered(wire@, service_name@),
{
    let unhealthy: bool = match wire.healthy {
        Some(healthy) => !healthy,
        None => false,
    };
    if unhealthy || wire.id.as_str().is_empty() || wire.host.as_str().is_empty() {
        return None;
    }
    let mut endpoint: String = cat3(
        pair_or_empty(&wire.metadata, "kind").as_str(),
        "://",
        wire.host.as_str(),
    );
    endpoint.append(":");
    endpoint.append(decimal_text(wire.port).as_str());
    let mut endpoints: Vec<String> = Vec::new();
    endpoints.push(endpoint);
    let r = Instance {
        id: wire.id.clone(),
        name: service_name.to_owned(),
        version: pair_or_empty(&wire.metadata, "version"),
        endpoints,
    };
    assert(r@.endpoints =~= discovered(wire@, service_name@)->0.endpoints);
    Some(r)
}

/// What the text of a discovered instance is read as.
pub open spec fn discovered_text(t: Seq<char>) -> DiscoveredView {
    let m = members_or_none(t);
    DiscoveredView {
        healthy: if m.contains_key("healthy"@) {
            crate::json::json_as_bool(m["healthy"@])
        } else {
            None
        },
        id: match text_member(m, "id"@) {
            Some(s) => s,
            None => Seq::empty(),
        },
        host: match text_member(m, "host"@) {
            Some(s) => s,
            None => Seq::empty(),
        },
        port: match number_member(m, "port"@) {
            Some(n) => n as nat,
            None => 0,
        },
        metadata: if m.contains_key("metadata"@) {
            match crate::json::json_as_text_map(m["metadata"@]) {
                Ok(metadata) => metadata,
                Err(_) => Map::empty(),
            }
        } else {
            Map::empty()
        },
    }
}

fn read_discovered(t: &str) -> (r: DiscoveredInstance)
    ensures
        r@ == discovered_text(t@),
{
    let pairs = members(t);
    let healthy: Option<bool> = match pair_value(&pairs, "healthy") {
        Some(v) => read_bool(v.as_str()),
        None => None,
    };
    let id: String = match read_text_member(&pairs, "id") {
        Some(s) => s,
        None => String::new(),
    };
    let host: String = match read_text_member(&pairs, "host") {
        Some(s) => s,
        None => String::new(),
    };
    let port: u64 = match read_number_member(&pairs, "port") {
        Some(n) => n,
        None => 0,
    };
    let none: Vec<(String, String)> = Vec::new();
    assert(crate::json::pair_texts(none@) =~= Seq::empty());
    let metadata: Vec<(String, String)> = match pair_value(&pairs, "metadata") {
        Some(v) => match read_text_map(v.as_str()) {
            Ok(m) => m,
            Err(_) => none,
        },
        None => none,
    };
    DiscoveredInstance { healthy, id, host, port, metadata }
}

/// The instances among the texts of discovered ones, in order.
pub open spec fn discovered_all(items: Seq<Seq<char>>, service_name: Seq<char>) -> Seq<
    crate::registry::InstanceView,
>
    decreases items.len(),
{
    if items.len() == 0 {
        Seq::empty()
    } else {
        let rest = discovered_all(items.drop_last(), service_name);
        match discovered(discovered_text(items.last()), service_name) {
            Some(i) => rest.push(i),
            None => rest,
        }
    }
}

/// The instances that the members of a reply tell of.
pub open spec fn reply_instances(
    m: Map<Seq<char>, Seq<char>>,
    service_name: Seq<char>,
) -> Seq<crate::registry::InstanceView> {
    if m.contains_key("instances"@) {
        match crate::json::json_as_list(m["instances"@]) {
            Some(items) => discovered_all(items, service_name),
            None => Seq::empty(),
        }
    } else {
        Seq::empty()
    }
}

/// Reads the instances that the members of a reply tell of.
#[verifier::loop_isolation(false)]
pub fn rebuild(reply: &Vec<(String, String)>, service_name: &str) -> (r: Vec<Instance>)
    ensures
        crate::registry::instance_views(r@) == reply_instances(
            crate::json::pairs_map(reply@),
            service_name@,
        ),
{
    let mut r: Vec<Instance> = Vec::new();
    assert(crate::registry::instance_views(r@) =~= Seq::empty());
    let listed = match pair_value(reply, "instances") {
        Some(t) => read_list(t.as_str()),
        None => None,
    };
    if let Some(items) = listed {
        let ghost all = crate::text::texts(items@);
        let mut i: usize = 0;
        assert(all.take(0) =~= Seq::<Seq<char>>::empty());
        while i < items.len()
            invariant
                i <= items@.len(),
                crate::registry::instance_views(r@) == discovered_all(
                    all.take(i as int),
                    service_name@,
                ),
            decreases items@.len() - i,
        {
            let ghost before = r@;
            let wire = read_discovered(items[i].as_str());
            if let Some(instance) = rebuild_one(&wire, service_name) {
                r.push(instance);
                assert(crate::registry::instance_views(r@) =~= crate::registry::instance_views(
                    before,
                ).push(instance@));
            }
            i += 1;
            assert(all.take(i as int).drop_last() =~= all.take(i - 1));
            assert(all.take(i as int).last() == items@[i - 1]@);
        }
        assert(all.take(i as int) =~= all);
    }
    r
}

/// What looking a service up gives, the text of the reply given.
pub fn discover(service_name: &str, text: &str) -> (r: Result<Vec<Instance>, RegistryError>)
    ensures
        match crate::json::json_error(text@) {
            Some(e) => crate::registry::failed(r, "polaris "@ + "Discover"@ + ": parse: "@ + e),
            None => {
                let m = members_or_none(text@);
                if reply_code(m) == CODE_SUCCESS {
                    r matches Ok(l) && crate::registry::instance_views(l@) == reply_instances(
                        m,
                        service_name@,
                    )
                } else {
                    crate::registry::failed(
                        r,
                        "polaris "@ + "Discover"@ + ": code "@ + crate::text::decimal(
                            reply_code(m) as nat,
                        ) + ": "@ + reply_info(m),
                    )
                }
            },
        },
{
    let reply = accept_reply("Discover", text)?;
    Ok(rebuild(&reply, service_name))
}

/// An endpoint that is discovered with the host, the port and the metadata it
/// was registered with, healthy and with an id, is read back as that endpoint
/// with the announced version. It holds of endpoints that are no more than
/// `scheme://host:port`, with a host and a port that is not negative.
pub proof fn registered_endpoint_reads_back(
    r: crate::registry::RegistrationView,
    endpoint: Seq<char>,
    wire: DiscoveredView,
    service_name: Seq<char>,
)
    requires
        ({
            let parts = crate::registry::endpoint::endpoint_parts(endpoint)->0;
            &&& crate::registry::endpoint::endpoint_parts(endpoint) is Some
            &&& endpoint == crate::registry::endpoint::endpoint_text(
                parts.scheme,
                parts.host,
                parts.port,
            )
            &&& parts.host.len() > 0
            &&& parts.port >= 0
            &&& wire.healthy != Some(false)
            &&& wire.id.len() > 0
            &&& wire.host == parts.host
            &&& wire.port == parts.port
            &&& wire.metadata == crate::registry::nacos::endpoint_metadata(r, parts.scheme)
        }),
    ensures
        discovered(wire, service_name) == Some(
            crate::registry::InstanceView {
                id: wire.id,
                name: service_name,
                version: r.instance.version,
                endpoints: seq![endpoint],
            },
        ),
{
    reveal_strlit("kind");
    reveal_strlit("version");
    assert("kind"@.len() == 4 && "version"@.len() == 7);
    let parts = crate::registry::endpoint::endpoint_parts(endpoint)->0;
    let back = discovered(wire, service_name)->0;
    assert(back.endpoints[0] =~= endpoint);
    assert(back.endpoints =~= seq![endpoint]);
}

/// An instance is passed over exactly where it is said to be unhealthy or lacks
/// an id or a host; one of which nothing is said of its health is read. It has
/// one endpoint, at its own host and port.
pub proof fn only_unusable_instances_are_passed_over(wire: DiscoveredView, service_name: Seq<char>)
    ensures
        discovered(wire, service_name) is None <==> wire.healthy == Some(false) || wire.id.len()
            == 0 || wire.host.len() == 0,
        discovered(wire, service_name) matches Some(i) ==> {
            let m = wire.metadata;
            &&& i.id == wire.id
            &&& i.name == service_name
            &&& m.contains_key("version"@) ==> i.version == m["version"@]
            &&& !m.contains_key("version"@) ==> i.version.len() == 0
            &&& i.endpoints.len() == 1
            &&& m.contains_key("kind"@) ==> i.endpoints[0] == m["kind"@] + "://"@ + wire.host
                + ":"@ + crate::text::decimal(wire.port)
            &&& !m.contains_key("kind"@) ==> i.endpoints[0] == "://"@ + wire.host + ":"@
                + crate::text::decimal(wire.port)
        },
{
    if let Some(i) = discovered(wire, service_name) {
        assert(i.endpoints[0] =~= crate::registry::kubernetes::entry_or_empty(
            wire.metadata,
            "kind"@,
        ) + "://"@ + wire.host + ":"@ + crate::text::decimal(wire.port));
        if !wire.metadata.contains_key("kind"@) {
            assert(i.endpoints[0] =~= "://"@ + wire.host + ":"@ + crate::text::decimal(wire.port));
        }
    }
}

/// Of the instances in a reply each that can be used is read once, in the order
/// of the reply, and no other.
pub proof fn each_usable_instance_is_read_once(items: Seq<Seq<char>>, service_name: Seq<char>)
    ensures
        crate::listing::picks(
            discovered_all(items, service_name),
            items,
            |t: Seq<char>|
                {
                    let wire = discovered_text(t);
                    wire.healthy != Some(false) && wire.id.len() > 0 && wire.host.len() > 0
                },
            |t: Seq<char>| discovered(discovered_text(t), service_name)->0,
        ),
    decreases items.len(),
{
    let usable = |t: Seq<char>|
        {
            let wire = discovered_text(t);
            wire.healthy != Some(false) && wire.id.len() > 0 && wire.host.len() > 0
        };
    let instance = |t: Seq<char>| discovered(discovered_text(t), service_name)->0;
    if items.len() == 0 {
        crate::listing::nothing_is_picked(
            discovered_all(items, service_name),
            items,
            usable,
            instance,
        );
    } else {
        let head = items.drop_last();
        each_usable_instance_is_read_once(head, service_name);
        crate::listing::picking_one_more(
            discovered_all(head, service_name),
            items,
            usable,
            instance,
        );
    }
}

/// Each part of a discovered instance is read from the member of its name, and
/// is empty where that is not there or is of another kind; of its health
/// nothing is said in that case.
pub proof fn parts_are_read_by_name(t: Seq<char>, m: Map<Seq<char>, Seq<char>>)
    requires
        crate::json::json_members(t) == Ok::<Option<Map<Seq<char>, Seq<char>>>, Seq<char>>(Some(m)),
    ensures
        ({
            let wire = discovered_text(t);
            &&& m.contains_key("healthy"@) ==> wire.healthy == crate::json::json_as_bool(
                m["healthy"@],
            )
            &&& !m.contains_key("healthy"@) ==> wire.healthy is None
            &&& m.contains_key("id"@) && crate::json::json_as_text(m["id"@]) is Ok ==> wire.id
                == crate::json::json_as_text(m["id"@])->Ok_0
            &&& !m.contains_key("id"@) || crate::json::json_as_text(m["id"@]) is Err
                ==> wire.id.len() == 0
            &&& m.contains_key("host"@) && crate::json::json_as_text(m["host"@]) is Ok
                ==> wire.host == crate::json::json_as_text(m["host"@])->Ok_0
            &&& !m.contains_key("host"@) || crate::json::json_as_text(m["host"@]) is Err
                ==> wire.host.len() == 0
            &&& m.contains_key("port"@) && crate::json::json_as_u64(m["port"@]) is Some
                ==> wire.port == crate::json::json_as_u64(m["port"@])->0
            &&& !m.contains_key("port"@) || crate::json::json_as_u64(m["port"@]) is None
                ==> wire.port == 0
            &&& m.contains_key("metadata"@) && crate::json::json_as_text_map(m["metadata"@]) is Ok
                ==> wire.metadata == crate::json::json_as_text_map(m["metadata"@])->Ok_0
            &&& !m.contains_key("metadata"@) || crate::json::json_as_text_map(m["metadata"@])
                is Err ==> wire.metadata == Map::<Seq<char>, Seq<char>>::empty()
        }),
{
}

/// A reply's instances are those of its list; without a list there are none.
/// Its code is its member of that name, and 0 where that is no number; codes
/// that fit in 32 bits are taken as they are.
pub proof fn reply_is_read_by_name(m: Map<Seq<char>, Seq<char>>, service_name: Seq<char>)
    ensures
        m.contains_key("instances"@) && crate::json::json_as_list(m["instances"@]) is Some
            ==> reply_instances(m, service_name) == discovered_all(
            crate::json::json_as_list(m["instances"@])->0,
            service_name,
        ),
        !m.contains_key("instances"@) || crate::json::json_as_list(m["instances"@]) is None
            ==> reply_instances(m, service_name).len() == 0,
        m.contains_key("code"@) && crate::json::json_as_u64(m["code"@]) is Some ==> reply_code(m)
            == crate::json::json_as_u64(m["code"@])->0 % 0x1_0000_0000,
        !m.contains_key("code"@) || crate::json::json_as_u64(m["code"@]) is None ==> reply_code(m)
            == 0,
        m.contains_key("info"@) && crate::json::json_as_text(m["info"@]) is Ok ==> reply_info(m)
            == crate::json::json_as_text(m["info"@])->Ok_0,
        !m.contains_key("info"@) || crate::json::json_as_text(m["info"@]) is Err ==> reply_info(
            m,
        ).len() == 0,
        forall|t: Seq<char>|
            #![trigger members_or_none(t)]
            match crate::json::json_members(t) {
                Ok(Some(members)) => members_or_none(t) == members,
                _ => members_or_none(t) == Map::<Seq<char>, Seq<char>>::empty(),
            },
{
    if let Some(n) = number_member(m, "code"@) {
        assert(n as u32 == n % 0x1_0000_0000) by (bit_vector);
    }
}

} // verus!
