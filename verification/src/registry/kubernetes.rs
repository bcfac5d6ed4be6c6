//! Kubernetes: the labels and annotations by which a pod announces the
//! service that runs in it, and the instance that a pod is read back as.
//!
//! The labels carry id, name and version. One annotation carries the
//! metadata, another a map from container port to endpoint scheme; both are
//! JSON objects.
use vstd::prelude::*;

use crate::json::{
    pair_value, pairs_of, push_member, read_text_map, write_object, write_text_map,
};
use crate::registry::endpoint::{endpoint_url, split_endpoint};
use crate::registry::{Instance, Registration, RegistryError};
use crate::string_map::StringMap;
use crate::text::{before, cat, cat3, same, signed_decimal_text};

verus! {

/// The label that carries the instance id.
pub const LABEL_SERVICE_ID: &'static str = "wind-service-id";

/// The label that carries the service name.
pub const LABEL_SERVICE_NAME: &'static str = "wind-service-app";

/// The label that carries the version.
pub const LABEL_SERVICE_VERSION: &'static str = "wind-service-version";

/// The annotation that carries the metadata.
pub const ANNOTATION_METADATA: &'static str = "wind-service-metadata";

/// The annotation that carries the map from port to scheme.
pub const ANNOTATION_PROTOCOLS: &'static str = "wind-service-protocols";

/// How often a watched service is listed again, in seconds.
pub const RESYNC_SECS: u64 = 600;

/// The settings that a Kubernetes registry is made from.
#[derive(Debug)]
pub struct KubernetesSettings {
    /// The namespace that pods are listed in; absent means all.
    pub namespace: Option<String>,
}

impl KubernetesSettings {
    /// The namespace that pods are listed in, empty for all.
    pub fn listing_namespace(&self) -> (s: String)
        ensures
            s@ == match self.namespace {
                Some(n) => n@,
                None => Seq::empty(),
            },
    {
        match &self.namespace {
            Some(n) => n.clone(),
            None => String::new(),
        }
    }
}

/// The labels and annotations to merge into a pod's metadata.
#[derive(Debug)]
pub struct PodPatch {
    pub labels: StringMap<String>,
    pub annotations: StringMap<String>,
}

/// The labels of an announcement.
pub open spec fn labels_of(id: Seq<char>, name: Seq<char>, version: Seq<char>) -> Map<
    Seq<char>,
    Seq<char>,
> {
    Map::<Seq<char>, Seq<char>>::empty().insert(LABEL_SERVICE_ID@, id).insert(
        LABEL_SERVICE_NAME@,
        name,
    ).insert(LABEL_SERVICE_VERSION@, version)
}

/// The annotations of an announcement.
pub open spec fn annotations_of(metadata: Seq<char>, protocols: Seq<char>) -> Map<
    Seq<char>,
    Seq<char>,
> {
    Map::<Seq<char>, Seq<char>>::empty().insert(ANNOTATION_METADATA@, metadata).insert(
        ANNOTATION_PROTOCOLS@,
        protocols,
    )
}

/// Builds the patch that writes the given identity and annotations.
pub fn build_patch(
    id: &str,
    name: &str,
    version: &str,
    metadata_json: &str,
    protocol_map_json: &str,
) -> (p: PodPatch)
    ensures
        crate::json::map_texts(p.labels@) == labels_of(id@, name@, version@),
        crate::json::map_texts(p.annotations@) == annotations_of(
            metadata_json@,
            protocol_map_json@,
        ),
{
    let mut labels: StringMap<String> = StringMap::new();
    labels.insert(LABEL_SERVICE_ID.to_owned(), id.to_owned());
    labels.insert(LABEL_SERVICE_NAME.to_owned(), name.to_owned());
    labels.insert(LABEL_SERVICE_VERSION.to_owned(), version.to_owned());
    let mut annotations: StringMap<String> = StringMap::new();
    annotations.insert(ANNOTATION_METADATA.to_owned(), metadata_json.to_owned());
    annotations.insert(ANNOTATION_PROTOCOLS.to_owned(), protocol_map_json.to_owned());
    assert(crate::json::map_texts(labels@) =~= labels_of(id@, name@, version@));
    assert(crate::json::map_texts(annotations@) =~= annotations_of(
        metadata_json@,
        protocol_map_json@,
    ));
    PodPatch { labels, annotations }
}

/// The members of a patch: what is to be merged into the pod's metadata.
pub open spec fn patch_text(
    labels: Map<Seq<char>, Seq<char>>,
    annotations: Map<Seq<char>, Seq<char>>,
) -> Seq<char> {
    crate::json::object_text(
        seq![
            (
                "metadata"@,
                crate::json::object_text(
                    seq![
                        ("annotations"@, crate::json::json_text_map(annotations)),
                        ("labels"@, crate::json::json_text_map(labels)),
                    ],
                ),
            ),
        ],
    )
}

impl PodPatch {
    /// Writes the patch as JSON.
    pub fn body(&self) -> (s: String)
        ensures
            s@ == patch_text(
                crate::json::map_texts(self.labels@),
                crate::json::map_texts(self.annotations@),
            ),
    {
        let mut inner: Vec<(String, String)> = Vec::new();
        let mut outer: Vec<(String, String)> = Vec::new();
        push_member(&mut inner, "annotations", write_text_map(pairs_of(&self.annotations)));
        push_member(&mut inner, "labels", write_text_map(pairs_of(&self.labels)));
        assert(crate::json::pair_texts(inner@) =~= seq![
            (
                "annotations"@,
                crate::json::json_text_map(crate::json::map_texts(self.annotations@)),
            ),
            ("labels"@, crate::json::json_text_map(crate::json::map_texts(self.labels@))),
        ]);
        push_member(&mut outer, "metadata", write_object(&inner));
        assert(crate::json::pair_texts(outer@) =~= seq![
            ("metadata"@, crate::json::object_text(crate::json::pair_texts(inner@))),
        ]);
        write_object(&outer)
    }
}

/// The key of an endpoint in the map from port to scheme: its port, nothing
/// where it has none.
pub open spec fn port_key(port: int) -> Seq<char> {
    if port == 0 {
        Seq::empty()
    } else {
        crate::text::signed_decimal(port)
    }
}

/// The map from port to scheme that a list of endpoints makes; of two
/// endpoints with one port the later counts.
pub open spec fn protocol_map(endpoints: Seq<Seq<char>>) -> Map<Seq<char>, Seq<char>>
    decreases endpoints.len(),
{
    if endpoints.len() == 0 {
        Map::empty()
    } else {
        let parts = crate::registry::endpoint::endpoint_parts(endpoints.last())->0;
        protocol_map(endpoints.drop_last()).insert(port_key(parts.port), parts.scheme)
    }
}

/// Builds the map from port to scheme as JSON. An endpoint that is no URL
/// makes it fail.
#[verifier::loop_isolation(false)]
pub fn build_protocol_map(registration: &Registration) -> (r: Result<String, RegistryError>)
    ensures
        ({
            let endpoints = registration@.instance.endpoints;
            match r {
                Ok(s) => crate::registry::endpoint::all_urls(endpoints) && s@
                    == crate::json::json_text_map(protocol_map(endpoints)),
                Err(e) => !crate::registry::endpoint::all_urls(endpoints) && e.reason()
                    == "endpoint parse: "@ + crate::registry::endpoint::first_bad(endpoints),
            }
        }),
{
    let endpoints = &registration.instance.endpoints;
    let ghost all = registration@.instance.endpoints;
    let mut schemes: StringMap<String> = StringMap::new();
    let mut i: usize = 0;
    assert(all.take(0) =~= Seq::<Seq<char>>::empty());
    assert(crate::json::map_texts(schemes@) =~= Map::empty());
    while i < endpoints.len()
        invariant
            i <= endpoints@.len(),
            forall|j: int|
                0 <= j < i ==> crate::registry::endpoint::endpoint_parts(
                    #[trigger] all[j],
                ) is Some,
            crate::json::map_texts(schemes@) == protocol_map(all.take(i as int)),
        decreases endpoints@.len() - i,
    {
        assert(all[i as int] == endpoints@[i as int]@);
        let parts = match split_endpoint(endpoints[i].as_str()) {
            Some(parts) => parts,
            None => {
                proof {
                    crate::registry::endpoint::lemma_first_bad(all, i as int);
                    assert(crate::registry::endpoint::endpoint_parts(all[i as int]) is None);
                }
                return Err(RegistryError::Failed(cat("endpoint parse: ", endpoints[i].as_str())));
            },
        };
        let ghost before = crate::json::map_texts(schemes@);
        let key: String = if parts.port == 0 {
            String::new()
        } else {
            signed_decimal_text(parts.port)
        };
        assert(key@ =~= port_key(parts@.port));
        schemes.insert(key, parts.scheme);
        i += 1;
        proof {
            assert(crate::json::map_texts(schemes@) =~= before.insert(key@, parts@.scheme));
            assert(all.take(i as int).drop_last() =~= all.take(i - 1));
        }
    }
    assert(all.take(i as int) =~= all);
    Ok(write_text_map(pairs_of(&schemes)))
}

/// The JSON of optional metadata.
pub open spec fn metadata_text(metadata: Option<Map<Seq<char>, Seq<char>>>) -> Seq<char> {
    match metadata {
        Some(m) => crate::json::json_text_map(m),
        None => "null"@,
    }
}

/// The patch by which a registration announces itself on its pod.
pub fn registration_patch(registration: &Registration) -> (r: Result<PodPatch, RegistryError>)
    ensures
        ({
            let instance = registration@.instance;
            match r {
                Ok(p) => {
                    &&& crate::registry::endpoint::all_urls(instance.endpoints)
                    &&& crate::json::map_texts(p.labels@) == labels_of(
                        instance.id,
                        instance.name,
                        instance.version,
                    )
                    &&& crate::json::map_texts(p.annotations@) == annotations_of(
                        metadata_text(registration@.metadata),
                        crate::json::json_text_map(protocol_map(instance.endpoints)),
                    )
                },
                Err(e) => !crate::registry::endpoint::all_urls(instance.endpoints) && e.reason()
                    == "endpoint parse: "@ + crate::registry::endpoint::first_bad(
                    instance.endpoints,
                ),
            }
        }),
{
    let protocols = build_protocol_map(registration)?;
    let metadata: String = match &registration.metadata {
        Some(m) => write_text_map(pairs_of(m)),
        None => "null".to_owned(),
    };
    Ok(
        build_patch(
            registration.instance.id.as_str(),
            registration.instance.name.as_str(),
            registration.instance.version.as_str(),
            metadata.as_str(),
            protocols.as_str(),
        ),
    )
}

/// The patch that takes an announcement back: empty labels and empty objects.
pub fn deregistration_patch() -> (p: PodPatch)
    ensures
        crate::json::map_texts(p.labels@) == labels_of(""@, ""@, ""@),
        crate::json::map_texts(p.annotations@) == annotations_of("{}"@, "{}"@),
{
    build_patch("", "", "", "{}", "{}")
}

/// One port of a container.
#[derive(Debug)]
pub struct ContainerPort {
    pub container_port: i32,
    pub name: Option<String>,
    pub protocol: Option<String>,
}

/// A pod, as far as it is read.
#[derive(Debug)]
pub struct Pod {
    /// The phase that the pod's status gives.
    pub phase: Option<String>,
    /// The pod's address.
    pub pod_ip: Option<String>,
    pub labels: StringMap<String>,
    pub annotations: StringMap<String>,
    /// The ports of all its containers, container by container.
    pub ports: Vec<ContainerPort>,
}

/// What a [`ContainerPort`] holds; what is absent is empty.
pub struct PortView {
    pub container_port: int,
    pub name: Seq<char>,
    pub protocol: Seq<char>,
}

impl View for ContainerPort {
    type V = PortView;

    open spec fn view(&self) -> PortView {
        PortView {
            container_port: self.container_port as int,
            name: text_or_empty(crate::text::opt_text(self.name)),
            protocol: text_or_empty(crate::text::opt_text(self.protocol)),
        }
    }
}

/// A text, empty where it is absent.
pub open spec fn text_or_empty(s: Option<Seq<char>>) -> Seq<char> {
    match s {
        Some(t) => t,
        None => Seq::empty(),
    }
}

/// What a [`Pod`] holds.
pub struct PodView {
    pub phase: Option<Seq<char>>,
    pub pod_ip: Seq<char>,
    pub labels: Map<Seq<char>, Seq<char>>,
    pub annotations: Map<Seq<char>, Seq<char>>,
    pub ports: Seq<PortView>,
}

impl View for Pod {
    type V = PodView;

    open spec fn view(&self) -> PodView {
        PodView {
            phase: crate::text::opt_text(self.phase),
            pod_ip: text_or_empty(crate::text::opt_text(self.pod_ip)),
            labels: crate::json::map_texts(self.labels@),
            annotations: crate::json::map_texts(self.annotations@),
            ports: Seq::new(self.ports@.len(), |i: int| self.ports@[i]@),
        }
    }
}

/// The texts that stand for an empty object.
pub open spec fn is_empty_object(value: Seq<char>) -> bool {
    value == ""@ || value == "{}"@ || value == "null"@ || value == "nil"@ || value == "[]"@
}

/// What an annotation is read as: one of the empty texts is an empty map,
/// anything else is JSON.
pub open spec fn object_string(value: Seq<char>) -> Result<Map<Seq<char>, Seq<char>>, Seq<char>> {
    if is_empty_object(value) {
        Ok(Map::empty())
    } else {
        match crate::json::json_as_text_map(value) {
            Ok(m) => Ok(m),
            Err(e) => Err("kubernetes annotation parse: "@ + e),
        }
    }
}

/// The text of a map stands for an empty object only where the map is empty.
proof fn lemma_empty_object(m: Map<Seq<char>, Seq<char>>)
    requires
        m.dom().finite(),
    ensures
        is_empty_object(crate::json::json_text_map(m)) ==> m == Map::<
            Seq<char>,
            Seq<char>,
        >::empty(),
{
    let list = crate::order::in_order(m);
    let members = crate::json::quoted_members(list);
    crate::order::order_exists(m);
    if list.len() == 0 {
        assert forall|k: Seq<char>| !(#[trigger] m.contains_key(k)) by {
            if m.contains_key(k) {
                assert(crate::order::holds_key(list, k));
            }
        }
        assert(m =~= Map::empty());
    } else {
        reveal_strlit("");
        reveal_strlit("{}");
        reveal_strlit("null");
        reveal_strlit("nil");
        reveal_strlit("[]");
        reveal_strlit("{");
        reveal_strlit("}");
        reveal_strlit(":");
        reveal_strlit("\"");
        assert(crate::json::members_text(members).len() >= 3);
        assert(crate::json::json_text_map(m).len() >= 5);
        assert(""@.len() == 0 && "{}"@.len() == 2 && "null"@.len() == 4 && "nil"@.len() == 3
            && "[]"@.len() == 2);
    }
}

/// The result of reading an annotation, in texts.
pub open spec fn pairs_outcome(r: Result<Vec<(String, String)>, RegistryError>) -> Result<
    Map<Seq<char>, Seq<char>>,
    Seq<char>,
> {
    match r {
        Ok(pairs) => Ok(crate::json::pairs_map(pairs@)),
        Err(e) => Err(e.reason()),
    }
}

/// Reads an annotation that holds a map of strings. What was written for a
/// map is read back as that map.
pub fn parse_object_string(value: &str) -> (r: Result<Vec<(String, String)>, RegistryError>)
    ensures
        pairs_outcome(r) == object_string(value@),
        forall|m: Map<Seq<char>, Seq<char>>|
            m.dom().finite() && value@ == #[trigger] crate::json::json_text_map(m)
                ==> pairs_outcome(r) == Ok::<
                Map<Seq<char>, Seq<char>>,
                Seq<char>,
            >(m),
{
    if same(value, "") || same(value, "{}") || same(value, "null") || same(value, "nil") || same(
        value,
        "[]",
    ) {
        let none: Vec<(String, String)> = Vec::new();
        proof {
            assert(crate::json::pair_texts(none@) =~= Seq::empty());
            assert forall|m: Map<Seq<char>, Seq<char>>|
                m.dom().finite() && value@ == #[trigger] crate::json::json_text_map(m) implies m
                == Map::<Seq<char>, Seq<char>>::empty() by {
                lemma_empty_object(m);
            }
        }
        return Ok(none);
    }
    match read_text_map(value) {
        Ok(pairs) => Ok(pairs),
        Err(e) => Err(RegistryError::Failed(cat("kubernetes annotation parse: ", e.as_str()))),
    }
}

/// What is under a key, empty where nothing is.
pub open spec fn entry_or_empty(m: Map<Seq<char>, Seq<char>>, key: Seq<char>) -> Seq<char> {
    if m.contains_key(key) {
        m[key]
    } else {
        Seq::empty()
    }
}

fn entry(m: &StringMap<String>, key: &str) -> (s: String)
    ensures
        s@ == entry_or_empty(crate::json::map_texts(m@), key@),
{
    match m.get(key) {
        Some(v) => v.clone(),
        None => String::new(),
    }
}

/// The scheme of a container port: what the map names, or else the port's
/// name up to its first dash, or else its IP protocol.
pub open spec fn port_scheme(port: PortView, protocols: Map<Seq<char>, Seq<char>>) -> Seq<char> {
    let named = entry_or_empty(protocols, crate::text::signed_decimal(port.container_port));
    if named.len() > 0 {
        named
    } else if port.name.len() > 0 {
        crate::text::text_before(port.name, '-')
    } else {
        port.protocol
    }
}

/// The instance that a running pod is, its map from port to scheme given.
pub open spec fn pod_instance(
    pod: PodView,
    protocols: Map<Seq<char>, Seq<char>>,
) -> crate::registry::InstanceView {
    crate::registry::InstanceView {
        id: entry_or_empty(pod.labels, LABEL_SERVICE_ID@),
        name: entry_or_empty(pod.labels, LABEL_SERVICE_NAME@),
        version: entry_or_empty(pod.labels, LABEL_SERVICE_VERSION@),
        endpoints: Seq::new(
            pod.ports.len(),
            |i: int|
                crate::registry::endpoint::endpoint_text(
                    port_scheme(pod.ports[i], protocols),
                    pod.pod_ip,
                    pod.ports[i].container_port,
                ),
        ),
    }
}

fn find_scheme(port: &ContainerPort, protocols: &Vec<(String, String)>) -> (s: String)
    ensures
        s@ == port_scheme(port@, crate::json::pairs_map(protocols@)),
{
    let key = signed_decimal_text(port.container_port as i64);
    if let Some(scheme) = pair_value(protocols, key.as_str()) {
        if !scheme.as_str().is_empty() {
            return scheme.clone();
        }
    }
    if let Some(name) = &port.name {
        if !name.as_str().is_empty() {
            return before(name.as_str(), '-');
        }
    }
    match &port.protocol {
        Some(protocol) => protocol.clone(),
        None => String::new(),
    }
}

/// Reads a running pod as an instance, its map from port to scheme given.
#[verifier::loop_isolation(false)]
pub fn assemble_pod_instance(pod: &Pod, protocols: &Vec<(String, String)>) -> (r: Instance)
    ensures
        r@ == pod_instance(pod@, crate::json::pairs_map(protocols@)),
{
    let ghost map = crate::json::pairs_map(protocols@);
    let pod_ip: String = match &pod.pod_ip {
        Some(ip) => ip.clone(),
        None => String::new(),
    };
    let mut endpoints: Vec<String> = Vec::new();
    let mut i: usize = 0;
    while i < pod.ports.len()
        invariant
            i <= pod.ports@.len(),
            endpoints@.len() == i,
            forall|j: int|
                0 <= j < i ==> (#[trigger] endpoints@[j])@
                    == crate::registry::endpoint::endpoint_text(
                    port_scheme(pod@.ports[j], map),
                    pod@.pod_ip,
                    pod@.ports[j].container_port,
                ),
        decreases pod.ports@.len() - i,
    {
        let scheme = find_scheme(&pod.ports[i], protocols);
        endpoints.push(
            endpoint_url(scheme.as_str(), pod_ip.as_str(), pod.ports[i].container_port as i64),
        );
        i += 1;
    }
    let r = Instance {
        id: entry(&pod.labels, LABEL_SERVICE_ID),
        name: entry(&pod.labels, LABEL_SERVICE_NAME),
        version: entry(&pod.labels, LABEL_SERVICE_VERSION),
        endpoints,
    };
    assert(r@.endpoints =~= pod_instance(pod@, map).endpoints);
    r
}

/// What a pod is read as: nothing where it does not run, a failure where one
/// of its annotations cannot be read, the instance otherwise.
pub open spec fn rebuilt(pod: PodView) -> Result<
    Option<crate::registry::InstanceView>,
    Seq<char>,
> {
    if pod.phase != Some("Running"@) {
        Ok(None)
    } else {
        match object_string(entry_or_empty(pod.annotations, ANNOTATION_PROTOCOLS@)) {
            Err(e) => Err(e),
            Ok(protocols) => match object_string(
                entry_or_empty(pod.annotations, ANNOTATION_METADATA@),
            ) {
                Err(e) => Err(e),
                Ok(_) => Ok(Some(pod_instance(pod, protocols))),
            },
        }
    }
}

/// The result of reading a pod, in views.
pub open spec fn rebuilt_outcome(r: Result<Option<Instance>, RegistryError>) -> Result<
    Option<crate::registry::InstanceView>,
    Seq<char>,
> {
    match r {
        Ok(Some(i)) => Ok(Some(i@)),
        Ok(None) => Ok(None),
        Err(e) => Err(e.reason()),
    }
}

/// What came back is what it is: an instance is one with its parts, nothing is
/// nothing, and a failure is one with its reason.
pub proof fn outcome_is_what_came_back(
    r: Result<Option<Instance>, RegistryError>,
    p: Result<Vec<(String, String)>, RegistryError>,
)
    ensures
        match r {
            Ok(Some(i)) => rebuilt_outcome(r) matches Ok(Some(v)) && v == i@,
            Ok(None) => rebuilt_outcome(r) matches Ok(None),
            Err(e) => rebuilt_outcome(r) matches Err(why) && why == e.reason(),
        },
        match p {
            Ok(pairs) => pairs_outcome(p) matches Ok(m) && m == crate::json::pairs_map(pairs@),
            Err(e) => pairs_outcome(p) matches Err(why) && why == e.reason(),
        },
{
}

/// The text is one of those for an empty object, or what is written for a map.
pub open spec fn is_object_text(value: Seq<char>) -> bool {
    is_empty_object(value) || exists|m: Map<Seq<char>, Seq<char>>|
        m.dom().finite() && value == #[trigger] crate::json::json_text_map(m)
}

/// The pod carries the labels and annotations of a registration.
pub open spec fn carries(pod: PodView, r: crate::registry::RegistrationView) -> bool {
    &&& entry_or_empty(pod.labels, LABEL_SERVICE_ID@) == r.instance.id
    &&& entry_or_empty(pod.labels, LABEL_SERVICE_NAME@) == r.instance.name
    &&& entry_or_empty(pod.labels, LABEL_SERVICE_VERSION@) == r.instance.version
    &&& entry_or_empty(pod.annotations, ANNOTATION_METADATA@) == metadata_text(r.metadata)
    &&& entry_or_empty(pod.annotations, ANNOTATION_PROTOCOLS@) == crate::json::json_text_map(
        protocol_map(r.instance.endpoints),
    )
}

/// A pod carries a registration once the registration's patch is merged into
/// its labels and annotations, whatever else stands there.
pub proof fn patched_pod_carries(
    pod: PodView,
    r: crate::registry::RegistrationView,
    labels: Map<Seq<char>, Seq<char>>,
    annotations: Map<Seq<char>, Seq<char>>,
)
    requires
        pod.labels == labels.union_prefer_right(
            labels_of(r.instance.id, r.instance.name, r.instance.version),
        ),
        pod.annotations == annotations.union_prefer_right(
            annotations_of(
                metadata_text(r.metadata),
                crate::json::json_text_map(protocol_map(r.instance.endpoints)),
            ),
        ),
    ensures
        carries(pod, r),
{
    reveal_strlit("wind-service-id");
    reveal_strlit("wind-service-app");
    reveal_strlit("wind-service-version");
    reveal_strlit("wind-service-metadata");
    reveal_strlit("wind-service-protocols");
    assert(LABEL_SERVICE_ID@.len() == 15 && LABEL_SERVICE_NAME@.len() == 16
        && LABEL_SERVICE_VERSION@.len() == 20 && ANNOTATION_METADATA@.len() == 21
        && ANNOTATION_PROTOCOLS@.len() == 22);
}

proof fn lemma_protocols_finite(endpoints: Seq<Seq<char>>)
    ensures
        protocol_map(endpoints).dom().finite(),
    decreases endpoints.len(),
{
    if endpoints.len() > 0 {
        lemma_protocols_finite(endpoints.drop_last());
    }
}

/// Reads a pod as an instance. What was written for the map from port to scheme
/// is read back as that map, whatever metadata was written beside it; so a pod
/// that carries a registration is read as the instance that its labels and its
/// ports make with the announced schemes.
pub fn rebuild_instance(pod: &Pod) -> (r: Result<Option<Instance>, RegistryError>)
    ensures
        rebuilt_outcome(r) == rebuilt(pod@),
        forall|protocols: Map<Seq<char>, Seq<char>>|
            pod@.phase == Some("Running"@) && protocols.dom().finite() && entry_or_empty(
                pod@.annotations,
                ANNOTATION_PROTOCOLS@,
            ) == #[trigger] crate::json::json_text_map(protocols) && is_object_text(
                entry_or_empty(pod@.annotations, ANNOTATION_METADATA@),
            ) ==> (r matches Ok(Some(i)) && i@ == pod_instance(pod@, protocols)),
        forall|registered: crate::registry::RegistrationView|
            pod@.phase == Some("Running"@) && crate::registry::is_storable(registered)
                && #[trigger] carries(pod@, registered) ==> (r matches Ok(Some(i)) && i@
                == pod_instance(pod@, protocol_map(registered.instance.endpoints))),
{
    let running: bool = match &pod.phase {
        Some(phase) => same(phase.as_str(), "Running"),
        None => false,
    };
    if !running {
        return Ok(None);
    }
    proof {
        assert forall|registered: crate::registry::RegistrationView|
            crate::registry::is_storable(registered) && #[trigger] carries(
                pod@,
                registered,
            ) implies protocol_map(registered.instance.endpoints).dom().finite() && is_object_text(
            entry_or_empty(pod@.annotations, ANNOTATION_METADATA@),
        ) by {
            lemma_protocols_finite(registered.instance.endpoints);
        }
    }
    let protocols = parse_object_string(entry(&pod.annotations, ANNOTATION_PROTOCOLS).as_str())?;
    parse_object_string(entry(&pod.annotations, ANNOTATION_METADATA).as_str())?;
    Ok(Some(assemble_pod_instance(pod, &protocols)))
}

/// What a list of pods is read as: the instances of those that run, in order,
/// or the first failure.
pub open spec fn rebuilt_all(pods: Seq<PodView>) -> Result<
    Seq<crate::registry::InstanceView>,
    Seq<char>,
>
    decreases pods.len(),
{
    if pods.len() == 0 {
        Ok(Seq::empty())
    } else {
        match rebuilt_all(pods.drop_last()) {
            Err(e) => Err(e),
            Ok(l) => match rebuilt(pods.last()) {
                Err(e) => Err(e),
                Ok(None) => Ok(l),
                Ok(Some(i)) => Ok(l.push(i)),
            },
        }
    }
}

proof fn lemma_rebuilt_fails(pods: Seq<PodView>, k: int)
    requires
        0 <= k <= pods.len(),
        rebuilt_all(pods.take(k)) is Err,
    ensures
        rebuilt_all(pods) == rebuilt_all(pods.take(k)),
    decreases pods.len() - k,
{
    if k < pods.len() {
        assert(pods.take(k + 1).drop_last() =~= pods.take(k));
        lemma_rebuilt_fails(pods, k + 1);
    } else {
        assert(pods.take(k) =~= pods);
    }
}

/// Reads the pods of a listing.
#[verifier::loop_isolation(false)]
pub fn rebuild_instances(pods: &Vec<Pod>) -> (r: Result<Vec<Instance>, RegistryError>)
    ensures
        ({
            let views = Seq::new(pods@.len(), |i: int| pods@[i]@);
            match r {
                Ok(l) => rebuilt_all(views) == Ok::<
                    Seq<crate::registry::InstanceView>,
                    Seq<char>,
                >(crate::registry::instance_views(l@)),
                Err(e) => rebuilt_all(views) == Err::<
                    Seq<crate::registry::InstanceView>,
                    Seq<char>,
                >(e.reason()),
            }
        }),
{
    let ghost views = Seq::new(pods@.len(), |i: int| pods@[i]@);
    let mut instances: Vec<Instance> = Vec::new();
    let mut i: usize = 0;
    assert(views.take(0) =~= Seq::empty());
    assert(crate::registry::instance_views(instances@) =~= Seq::empty());
    while i < pods.len()
        invariant
            i <= pods@.len(),
            rebuilt_all(views.take(i as int)) == Ok::<
                Seq<crate::registry::InstanceView>,
                Seq<char>,
            >(crate::registry::instance_views(instances@)),
        decreases pods@.len() - i,
    {
        assert(views.take(i + 1).drop_last() =~= views.take(i as int));
        assert(views.take(i + 1).last() == pods@[i as int]@);
        match rebuild_instance(&pods[i]) {
            Ok(Some(instance)) => {
                let ghost before = instances@;
                instances.push(instance);
                assert(crate::registry::instance_views(instances@)
                    =~= crate::registry::instance_views(before).push(instance@));
            },
            Ok(None) => {},
            Err(e) => {
                proof {
                    lemma_rebuilt_fails(views, i + 1);
                }
                return Err(e);
            },
        }
        i += 1;
    }
    assert(views.take(i as int) =~= views);
    Ok(instances)
}

/// A listing whose pods can all be read is read as one instance for each pod
/// that runs, in the order of the listing: there are as many instances as pods
/// that run, and what a running pod is read as stands at the position that the
/// running pods before it leave.
pub proof fn each_running_pod_is_read_once(pods: Seq<PodView>)
    requires
        forall|i: int| 0 <= i < pods.len() ==> rebuilt(#[trigger] pods[i]) is Ok,
    ensures
        rebuilt_all(pods) matches Ok(l) && crate::listing::picks(
            l,
            pods,
            |pod: PodView| pod.phase == Some("Running"@),
            |pod: PodView| rebuilt(pod)->Ok_0->0,
        ),
    decreases pods.len(),
{
    let runs = |pod: PodView| pod.phase == Some("Running"@);
    let instance = |pod: PodView| rebuilt(pod)->Ok_0->0;
    if pods.len() == 0 {
        crate::listing::nothing_is_picked(rebuilt_all(pods)->Ok_0, pods, runs, instance);
    } else {
        let head = pods.drop_last();
        assert forall|i: int| 0 <= i < head.len() implies rebuilt(#[trigger] head[i]) is Ok by {
            assert(head[i] == pods[i]);
        }
        each_running_pod_is_read_once(head);
        assert(rebuilt(pods[pods.len() - 1]) is Ok);
        crate::listing::picking_one_more(rebuilt_all(head)->Ok_0, pods, runs, instance);
    }
}

/// A pod that does not run is read as nothing, whatever it carries. One that
/// runs is read as an instance with the id, the name and the version of its
/// labels and an endpoint for each container port, in their order and at the
/// pod's address, or its reading fails; it is never passed over.
pub proof fn running_pod_is_never_passed_over(pod: PodView)
    ensures
        pod.phase != Some("Running"@) ==> rebuilt(pod) == Ok::<
            Option<crate::registry::InstanceView>,
            Seq<char>,
        >(None),
        pod.phase == Some("Running"@) ==> match rebuilt(pod) {
            Ok(None) => false,
            Ok(Some(i)) => {
                &&& object_string(entry_or_empty(pod.annotations, ANNOTATION_PROTOCOLS@)) is Ok
                &&& object_string(entry_or_empty(pod.annotations, ANNOTATION_METADATA@)) is Ok
                &&& pod.labels.contains_key("wind-service-id"@) ==> i.id
                    == pod.labels["wind-service-id"@]
                &&& !pod.labels.contains_key("wind-service-id"@) ==> i.id.len() == 0
                &&& pod.labels.contains_key("wind-service-app"@) ==> i.name
                    == pod.labels["wind-service-app"@]
                &&& !pod.labels.contains_key("wind-service-app"@) ==> i.name.len() == 0
                &&& pod.labels.contains_key("wind-service-version"@) ==> i.version
                    == pod.labels["wind-service-version"@]
                &&& !pod.labels.contains_key("wind-service-version"@) ==> i.version.len() == 0
                &&& i.endpoints.len() == pod.ports.len()
                &&& forall|k: int|
                    #![trigger i.endpoints[k]]
                    0 <= k < pod.ports.len() ==> i.endpoints[k]
                        == crate::registry::endpoint::endpoint_text(
                        port_scheme(
                            pod.ports[k],
                            object_string(
                                entry_or_empty(pod.annotations, ANNOTATION_PROTOCOLS@),
                            )->Ok_0,
                        ),
                        pod.pod_ip,
                        pod.ports[k].container_port,
                    )
            },
            Err(e) => {
                let protocols = entry_or_empty(pod.annotations, ANNOTATION_PROTOCOLS@);
                let metadata = entry_or_empty(pod.annotations, ANNOTATION_METADATA@);
                object_string(protocols) == Err::<Map<Seq<char>, Seq<char>>, Seq<char>>(e) || (
                object_string(protocols) is Ok && object_string(metadata) == Err::<
                    Map<Seq<char>, Seq<char>>,
                    Seq<char>,
                >(e))
            },
        },
{
}

/// A listing with a pod that cannot be read is not read: what is reported is
/// why the first such pod cannot be.
pub proof fn first_unreadable_pod_is_reported(pods: Seq<PodView>, k: int)
    requires
        0 <= k < pods.len(),
        forall|i: int| 0 <= i < k ==> rebuilt(#[trigger] pods[i]) is Ok,
        rebuilt(pods[k]) is Err,
    ensures
        rebuilt_all(pods) == Err::<Seq<crate::registry::InstanceView>, Seq<char>>(
            rebuilt(pods[k])->Err_0,
        ),
{
    let before = pods.take(k);
    assert forall|i: int| 0 <= i < before.len() implies rebuilt(#[trigger] before[i]) is Ok by {
        assert(before[i] == pods[i]);
    }
    each_running_pod_is_read_once(before);
    let so_far = pods.take(k + 1);
    assert(so_far.drop_last() =~= before);
    assert(so_far.last() == pods[k]);
    lemma_rebuilt_fails(pods, k + 1);
}

/// What is under a key is read as it is, and what is not there as empty.
pub proof fn missing_entry_is_empty(m: Map<Seq<char>, Seq<char>>, key: Seq<char>)
    ensures
        m.contains_key(key) ==> entry_or_empty(m, key) == m[key],
        !m.contains_key(key) ==> entry_or_empty(m, key).len() == 0,
{
}

/// Each of the five texts for an empty object is read as no entries at all;
/// every other text is read as JSON, or fails with the reason that the reading
/// gives.
pub proof fn empty_annotations_hold_nothing(value: Seq<char>)
    ensures
        value == ""@ || value == "{}"@ || value == "null"@ || value == "nil"@ || value == "[]"@
            ==> object_string(value) == Ok::<Map<Seq<char>, Seq<char>>, Seq<char>>(Map::empty()),
        value != ""@ && value != "{}"@ && value != "null"@ && value != "nil"@ && value != "[]"@ ==> (
        match crate::json::json_as_text_map(value) {
            Ok(m) => object_string(value) == Ok::<Map<Seq<char>, Seq<char>>, Seq<char>>(m),
            Err(e) => object_string(value) == Err::<Map<Seq<char>, Seq<char>>, Seq<char>>(
                "kubernetes annotation parse: "@ + e,
            ),
        }),
{
}

/// Of the endpoints with one port the last names the scheme, under the port's
/// number or, for the port 0, under the empty text; the map holds nothing else.
pub proof fn last_endpoint_of_a_port_names_its_scheme(endpoints: Seq<Seq<char>>, k: int)
    requires
        0 <= k < endpoints.len(),
        forall|later: int|
            k < later < endpoints.len() ==> port_key(
                crate::registry::endpoint::endpoint_parts(#[trigger] endpoints[later])->0.port,
            ) != port_key(crate::registry::endpoint::endpoint_parts(endpoints[k])->0.port),
    ensures
        ({
            let parts = crate::registry::endpoint::endpoint_parts(endpoints[k])->0;
            let key = if parts.port == 0 {
                Seq::empty()
            } else {
                crate::text::signed_decimal(parts.port)
            };
            protocol_map(endpoints).contains_key(key) && protocol_map(endpoints)[key]
                == parts.scheme
        }),
        forall|key: Seq<char>| #[trigger]
            protocol_map(endpoints).contains_key(key) ==> exists|i: int|
                0 <= i < endpoints.len() && key == port_key(
                    crate::registry::endpoint::endpoint_parts(#[trigger] endpoints[i])->0.port,
                ),
{
    lemma_last_protocol(endpoints, k);
    lemma_protocol_keys(endpoints);
}

proof fn lemma_protocol_keys(endpoints: Seq<Seq<char>>)
    ensures
        forall|key: Seq<char>| #[trigger]
            protocol_map(endpoints).contains_key(key) ==> exists|i: int|
                0 <= i < endpoints.len() && key == port_key(
                    crate::registry::endpoint::endpoint_parts(#[trigger] endpoints[i])->0.port,
                ),
    decreases endpoints.len(),
{
    if endpoints.len() > 0 {
        let head = endpoints.drop_last();
        lemma_protocol_keys(head);
        assert forall|key: Seq<char>| #[trigger]
            protocol_map(endpoints).contains_key(key) implies exists|i: int|
            0 <= i < endpoints.len() && key == port_key(
                crate::registry::endpoint::endpoint_parts(#[trigger] endpoints[i])->0.port,
            ) by {
            if protocol_map(head).contains_key(key) {
                let i = choose|i: int|
                    0 <= i < head.len() && key == port_key(
                        crate::registry::endpoint::endpoint_parts(#[trigger] head[i])->0.port,
                    );
                assert(endpoints[i] == head[i]);
            } else {
                assert(endpoints[endpoints.len() - 1] == endpoints.last());
            }
        }
    }
}

/// The scheme that the map names for a port goes before the port's name, and
/// that before its IP protocol; an empty text names nothing.
pub proof fn named_scheme_goes_first(
    port: PortView,
    protocols: Map<Seq<char>, Seq<char>>,
    before_dash: Seq<char>,
    after: Seq<char>,
)
    ensures
        ({
            let number = crate::text::signed_decimal(port.container_port);
            let unnamed = !protocols.contains_key(number) || protocols[number].len() == 0;
            &&& !unnamed ==> port_scheme(port, protocols) == protocols[number]
            &&& unnamed && port.name.len() == 0 ==> port_scheme(port, protocols) == port.protocol
            &&& unnamed && port.name.len() > 0 && !port.name.contains('-') ==> port_scheme(
                port,
                protocols,
            ) == port.name
            &&& unnamed && !before_dash.contains('-') && port.name == before_dash + seq!['-']
                + after ==> port_scheme(port, protocols) == before_dash
        }),
{
    if !before_dash.contains('-') {
        crate::text::text_ends_at_first(before_dash, '-', after);
    }
    if !port.name.contains('-') {
        crate::text::text_stays_whole(port.name, '-');
    }
}

/// The label selector of a service's pods.
pub fn selector(service_name: &str) -> (s: String)
    ensures
        s@ == LABEL_SERVICE_NAME@ + "="@ + service_name@,
{
    cat3(LABEL_SERVICE_NAME, "=", service_name)
}

/// What listing a service's pods gives, the listing itself given.
pub fn settle_listing(service_name: &str, listed: Result<Vec<Pod>, String>) -> (r: Result<
    Vec<Instance>,
    RegistryError,
>)
    ensures
        match listed {
            Err(e) => crate::registry::failed(
                r,
                "kubernetes list "@ + (LABEL_SERVICE_NAME@ + "="@ + service_name@) + ": "@ + e@,
            ),
            Ok(pods) => match rebuilt_all(Seq::new(pods@.len(), |i: int| pods@[i]@)) {
                Ok(views) => r matches Ok(l) && crate::registry::instance_views(l@) == views,
                Err(e) => crate::registry::failed(r, e),
            },
        },
{
    match listed {
        Ok(pods) => rebuild_instances(&pods),
        Err(e) => {
            let mut s: String = cat("kubernetes list ", selector(service_name).as_str());
            s.append(": ");
            s.append(e.as_str());
            Err(RegistryError::Failed(s))
        },
    }
}

/// What patching a pod gives, the patch's own outcome given.
pub fn settle_patch(namespace: &str, pod: &str, patched: Result<(), String>) -> (r: Result<
    (),
    RegistryError,
>)
    ensures
        match patched {
            Ok(_) => r is Ok,
            Err(e) => crate::registry::failed(
                r,
                "kubernetes patch "@ + namespace@ + " / "@ + pod@ + ": "@ + e@,
            ),
        },
{
    match patched {
        Ok(_) => Ok(()),
        Err(e) => {
            let mut s: String = cat3("kubernetes patch ", namespace, " / ");
            s.append(pod);
            s.append(": ");
            s.append(e.as_str());
            Err(RegistryError::Failed(s))
        },
    }
}

proof fn lemma_last_protocol(endpoints: Seq<Seq<char>>, e: int)
    requires
        0 <= e < endpoints.len(),
        forall|later: int|
            e < later < endpoints.len() ==> port_key(
                crate::registry::endpoint::endpoint_parts(#[trigger] endpoints[later])->0.port,
            ) != port_key(crate::registry::endpoint::endpoint_parts(endpoints[e])->0.port),
    ensures
        ({
            let parts = crate::registry::endpoint::endpoint_parts(endpoints[e])->0;
            let m = protocol_map(endpoints);
            m.contains_key(port_key(parts.port)) && m[port_key(parts.port)] == parts.scheme
        }),
    decreases endpoints.len(),
{
    let last = endpoints.len() - 1;
    if e < last {
        let shorter = endpoints.drop_last();
        assert forall|later: int| e < later < shorter.len() implies port_key(
            crate::registry::endpoint::endpoint_parts(#[trigger] shorter[later])->0.port,
        ) != port_key(crate::registry::endpoint::endpoint_parts(shorter[e])->0.port) by {
            assert(shorter[later] == endpoints[later] && shorter[e] == endpoints[e]);
        }
        lemma_last_protocol(shorter, e);
        assert(shorter[e] == endpoints[e]);
        assert(endpoints[last] == endpoints.last());
    }
}

/// What a pod that carries a registration is read back as: the announced id,
/// name and version, and each container port with the scheme of the last
/// endpoint that was announced for it. It holds without any endpoint too; of an
/// endpoint whose port is 0 or whose scheme is empty nothing is said.
pub proof fn carried_registration_reads_back(pod: PodView, r: crate::registry::RegistrationView)
    requires
        carries(pod, r),
    ensures
        ({
            let back = pod_instance(pod, protocol_map(r.instance.endpoints));
            &&& back.id == r.instance.id
            &&& back.name == r.instance.name
            &&& back.version == r.instance.version
            &&& back.endpoints.len() == pod.ports.len()
            &&& forall|i: int, e: int|
                #![trigger pod.ports[i], r.instance.endpoints[e]]
                0 <= i < pod.ports.len() && announced_last(
                    r.instance.endpoints,
                    e,
                    pod.ports[i].container_port,
                ) ==> back.endpoints[i] == crate::registry::endpoint::endpoint_text(
                    crate::registry::endpoint::endpoint_parts(r.instance.endpoints[e])->0.scheme,
                    pod.pod_ip,
                    pod.ports[i].container_port,
                )
        }),
{
    assert forall|i: int, e: int|
        #![trigger pod.ports[i], r.instance.endpoints[e]]
        0 <= i < pod.ports.len() && announced_last(
            r.instance.endpoints,
            e,
            pod.ports[i].container_port,
        ) implies port_scheme(pod.ports[i], protocol_map(r.instance.endpoints))
        == crate::registry::endpoint::endpoint_parts(r.instance.endpoints[e])->0.scheme by {
        lemma_last_protocol(r.instance.endpoints, e);
    }
}

/// The endpoint is the last that was announced for the port, which is other
/// than 0, and its scheme is other than the empty one.
pub open spec fn announced_last(endpoints: Seq<Seq<char>>, e: int, port: int) -> bool {
    let parts = crate::registry::endpoint::endpoint_parts(endpoints[e])->0;
    &&& 0 <= e < endpoints.len()
    &&& parts.port == port
    &&& port != 0
    &&& parts.scheme.len() > 0
    &&& forall|later: int|
        e < later < endpoints.len() ==> port_key(
            crate::registry::endpoint::endpoint_parts(#[trigger] endpoints[later])->0.port,
        ) != port_key(port)
}

/// A pod that carries a registration, and whose container ports are the ports
/// of the announced endpoints on its own address, is read back as the announced
/// instance. It holds where no two endpoints share a port, every port is other
/// than 0 and every scheme is other than the empty one.
pub proof fn announced_pod_reads_back(pod: PodView, r: crate::registry::RegistrationView)
    requires
        carries(pod, r),
        pod.ports.len() == r.instance.endpoints.len(),
        forall|i: int|
            #![trigger r.instance.endpoints[i]]
            0 <= i < r.instance.endpoints.len() ==> {
                let parts = crate::registry::endpoint::endpoint_parts(r.instance.endpoints[i]);
                &&& parts is Some
                &&& parts->0.scheme.len() > 0
                &&& parts->0.port != 0
                &&& parts->0.port == pod.ports[i].container_port
                &&& r.instance.endpoints[i] == crate::registry::endpoint::endpoint_text(
                    parts->0.scheme,
                    pod.pod_ip,
                    parts->0.port,
                )
            },
        forall|a: int, b: int|
            #![trigger r.instance.endpoints[a], r.instance.endpoints[b]]
            0 <= a < b < r.instance.endpoints.len() ==> port_key(
                crate::registry::endpoint::endpoint_parts(r.instance.endpoints[a])->0.port,
            ) != port_key(
                crate::registry::endpoint::endpoint_parts(r.instance.endpoints[b])->0.port,
            ),
    ensures
        pod_instance(pod, protocol_map(r.instance.endpoints)) == r.instance,
{
    let back = pod_instance(pod, protocol_map(r.instance.endpoints));
    assert forall|i: int| 0 <= i < r.instance.endpoints.len() implies back.endpoints[i]
        == r.instance.endpoints[i] by {
        lemma_last_protocol(r.instance.endpoints, i);
        let parts = crate::registry::endpoint::endpoint_parts(r.instance.endpoints[i])->0;
        assert(port_key(parts.port) == crate::text::signed_decimal(pod.ports[i].container_port));
    }
    assert(back.endpoints =~= r.instance.endpoints);
}

} // verus!
