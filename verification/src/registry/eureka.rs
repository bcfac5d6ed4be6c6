//! Eureka: one registered instance for each endpoint, whose metadata carries
//! the announced identity; the list of applications it is read back from; and
//! the rotation over several servers.
use vstd::prelude::*;

use crate::json::{pairs_of, push_member, push_text, write_object, write_text_map};
use crate::registry::endpoint::split_endpoint;
use crate::registry::snapshots::Snapshots;
use crate::registry::{copy_instances, copy_texts, Instance, Registration, RegistryError};
use crate::string_map::StringMap;
use crate::text::{
    cat, cat3, chars_of, decimal_text, join, parse_i64, same, signed_decimal_text, strip_prefix,
    to_uppercase, trim_end_slashes,
};

verus! {

/// How often an instance's heartbeat is sent, in seconds.
pub const HEARTBEAT_SECS: u64 = 10;

/// How often the list of applications is fetched, in seconds.
pub const REFRESH_SECS: u64 = 30;

/// How long a request may take, in seconds.
pub const HTTP_TIMEOUT_SECS: u64 = 3;

/// The root of the servers' paths.
pub const DEFAULT_EUREKA_PATH: &'static str = "eureka/v2";

/// The settings that a eureka registry is made from.
#[derive(Debug)]
pub struct EurekaSettings {
    /// Where the servers are.
    pub urls: Vec<String>,
    /// The root of their paths.
    pub eureka_path: Option<String>,
}

/// An endpoint as it is registered.
#[derive(Debug)]
pub struct WireEndpoint {
    pub app_id: String,
    pub ip: String,
    pub port: i64,
    pub secure_port: i64,
    pub home_page_url: String,
    pub status_page_url: String,
    pub health_check_url: String,
    pub instance_id: String,
    pub metadata: StringMap<String>,
}

/// What a [`WireEndpoint`] holds.
pub struct WireEndpointView {
    pub app_id: Seq<char>,
    pub ip: Seq<char>,
    pub port: int,
    pub secure_port: int,
    pub home_page_url: Seq<char>,
    pub status_page_url: Seq<char>,
    pub health_check_url: Seq<char>,
    pub instance_id: Seq<char>,
    pub metadata: Map<Seq<char>, Seq<char>>,
}

impl View for WireEndpoint {
    type V = WireEndpointView;

    open spec fn view(&self) -> WireEndpointView {
        WireEndpointView {
            app_id: self.app_id@,
            ip: self.ip@,
            port: self.port as int,
            secure_port: self.secure_port as int,
            home_page_url: self.home_page_url@,
            status_page_url: self.status_page_url@,
            health_check_url: self.health_check_url@,
            instance_id: self.instance_id@,
            metadata: crate::json::map_texts(self.metadata@),
        }
    }
}

/// The metadata of an announcement, empty where it has none.
pub open spec fn metadata_or_empty(r: crate::registry::RegistrationView) -> Map<
    Seq<char>,
    Seq<char>,
> {
    match r.metadata {
        Some(m) => m,
        None => Map::empty(),
    }
}

/// What the metadata gives under a key, or else `otherwise`.
pub open spec fn given_or(
    m: Map<Seq<char>, Seq<char>>,
    key: Seq<char>,
    otherwise: Seq<char>,
) -> Seq<char> {
    if m.contains_key(key) {
        m[key]
    } else {
        otherwise
    }
}

/// The metadata that an endpoint is registered with: that of the announcement
/// with the announced identity laid over it.
pub open spec fn endpoint_metadata(
    r: crate::registry::RegistrationView,
    endpoint: Seq<char>,
) -> Map<Seq<char>, Seq<char>> {
    metadata_or_empty(r).insert("ID"@, r.instance.id).insert("Name"@, r.instance.name).insert(
        "Version"@,
        r.instance.version,
    ).insert("Endpoints"@, endpoint).insert("agent"@, "go-eureka-client"@)
}

/// The port of the secure endpoint: 443, or what the metadata gives, a text
/// that is no number counting as 0.
pub open spec fn secure_port_of(m: Map<Seq<char>, Seq<char>>) -> int {
    if m.contains_key("securePort"@) {
        match crate::text::parsed_i64(m["securePort"@]) {
            Some(p) => p,
            None => 0,
        }
    } else {
        443
    }
}

/// One endpoint of an announcement as it is registered.
pub open spec fn wire_endpoint(
    r: crate::registry::RegistrationView,
    endpoint: Seq<char>,
) -> WireEndpointView {
    let parts = crate::registry::endpoint::endpoint_parts(endpoint)->0;
    let m = metadata_or_empty(r);
    let app_id = crate::text::uppercase(r.instance.name);
    WireEndpointView {
        app_id,
        ip: parts.host,
        port: parts.port,
        secure_port: secure_port_of(m),
        home_page_url: given_or(m, "homePageURL"@, endpoint + "/"@),
        status_page_url: given_or(m, "statusPageURL"@, endpoint + "/info"@),
        health_check_url: given_or(m, "healthCheckURL"@, endpoint + "/health"@),
        instance_id: parts.host + "."@ + app_id + ":"@ + crate::text::signed_decimal(parts.port),
        metadata: endpoint_metadata(r, endpoint),
    }
}

fn given(m: &Option<StringMap<String>>, key: &str, otherwise: String) -> (s: String)
    ensures
        s@ == given_or(metadata_view(*m), key@, otherwise@),
{
    if let Some(m) = m {
        if let Some(v) = m.get(key) {
            return v.clone();
        }
    }
    otherwise
}

/// Builds one endpoint of an announcement as it is registered.
pub fn build_wire_endpoint(registration: &Registration, endpoint: &str) -> (r: Result<
    WireEndpoint,
    RegistryError,
>)
    ensures
        match crate::registry::endpoint::endpoint_parts(endpoint@) {
            None => crate::registry::failed(r, "endpoint parse: "@ + endpoint@),
            Some(_) => r matches Ok(w) && w@ == wire_endpoint(registration@, endpoint@),
        },
{
    let parts = match split_endpoint(endpoint) {
        Some(parts) => parts,
        None => {
            return Err(RegistryError::Failed(cat("endpoint parse: ", endpoint)));
        },
    };
    let app_id = to_uppercase(registration.instance.name.as_str());
    let mut secure_port: i64 = 443;
    let mut metadata: StringMap<String> = match &registration.metadata {
        Some(m) => {
            if let Some(value) = m.get("securePort") {
                let digits = chars_of(value.as_str());
                assert(digits@.subrange(0, digits@.len() as int) =~= value@);
                secure_port = match parse_i64(&digits, 0, digits.len()) {
                    Some(p) => p,
                    None => 0,
                };
            }
            crate::json::copy_map(m)
        },
        None => {
            let none: StringMap<String> = StringMap::new();
            assert(crate::json::map_texts(none@) =~= Map::empty());
            none
        },
    };
    metadata.insert("ID".to_owned(), registration.instance.id.clone());
    metadata.insert("Name".to_owned(), registration.instance.name.clone());
    metadata.insert("Version".to_owned(), registration.instance.version.clone());
    metadata.insert("Endpoints".to_owned(), endpoint.to_owned());
    metadata.insert("agent".to_owned(), "go-eureka-client".to_owned());
    assert(crate::json::map_texts(metadata@) =~= endpoint_metadata(registration@, endpoint@));
    let mut instance_id: String = cat3(parts.host.as_str(), ".", app_id.as_str());
    instance_id.append(":");
    instance_id.append(signed_decimal_text(parts.port).as_str());
    let given_metadata = &registration.metadata;
    Ok(
        WireEndpoint {
            app_id,
            ip: parts.host,
            port: parts.port,
            secure_port,
            home_page_url: given(given_metadata, "homePageURL", cat(endpoint, "/")),
            status_page_url: given(given_metadata, "statusPageURL", cat(endpoint, "/info")),
            health_check_url: given(given_metadata, "healthCheckURL", cat(endpoint, "/health")),
            instance_id,
            metadata,
        },
    )
}

/// A port as it is written: its number, and whether it is in use.
#[derive(Debug)]
pub struct WirePort {
    pub number: i64,
    pub enabled: String,
}

/// The body of a registration.
#[derive(Debug)]
pub struct WireInstance {
    pub instance_id: String,
    pub host_name: String,
    pub port: WirePort,
    pub app: String,
    pub ip_addr: String,
    pub vip_address: String,
    pub status: String,
    pub secure_port: WirePort,
    pub home_page_url: String,
    pub status_page_url: String,
    pub health_check_url: String,
    pub data_center_name: String,
    pub data_center_class: String,
    pub metadata: StringMap<String>,
}

/// A port as JSON.
pub open spec fn port_text(p: WirePort) -> Seq<char> {
    crate::json::object_text(
        seq![
            ("$"@, crate::text::signed_decimal(p.number as int)),
            ("@enabled"@, crate::json::json_quoted(p.enabled@)),
        ],
    )
}

/// The members of a registered instance.
pub open spec fn instance_members(w: WireInstance) -> Seq<(Seq<char>, Seq<char>)> {
    seq![
        ("instanceId"@, crate::json::json_quoted(w.instance_id@)),
        ("hostName"@, crate::json::json_quoted(w.host_name@)),
        ("port"@, port_text(w.port)),
        ("app"@, crate::json::json_quoted(w.app@)),
        ("ipAddr"@, crate::json::json_quoted(w.ip_addr@)),
        ("vipAddress"@, crate::json::json_quoted(w.vip_address@)),
        ("status"@, crate::json::json_quoted(w.status@)),
        ("securePort"@, port_text(w.secure_port)),
        ("homePageUrl"@, crate::json::json_quoted(w.home_page_url@)),
        ("statusPageUrl"@, crate::json::json_quoted(w.status_page_url@)),
        ("healthCheckUrl"@, crate::json::json_quoted(w.health_check_url@)),
        (
            "dataCenterInfo"@,
            crate::json::object_text(
                seq![
                    ("name"@, crate::json::json_quoted(w.data_center_name@)),
                    ("@class"@, crate::json::json_quoted(w.data_center_class@)),
                ],
            ),
        ),
        ("metadata"@, crate::json::json_text_map(crate::json::map_texts(w.metadata@))),
    ]
}

/// The body of a registration: the instance under its name.
pub open spec fn instance_text(w: WireInstance) -> Seq<char> {
    crate::json::object_text(
        seq![("instance"@, crate::json::object_text(instance_members(w)))],
    )
}

impl WirePort {
    /// Writes a port as JSON.
    pub fn body(&self) -> (s: String)
        ensures
            s@ == port_text(*self),
    {
        let mut members: Vec<(String, String)> = Vec::new();
        push_member(&mut members, "$", signed_decimal_text(self.number));
        push_text(&mut members, "@enabled", self.enabled.as_str());
        assert(crate::json::pair_texts(members@) =~= seq![
            ("$"@, crate::text::signed_decimal(self.number as int)),
            ("@enabled"@, crate::json::json_quoted(self.enabled@)),
        ]);
        write_object(&members)
    }
}

impl WireInstance {
    /// Writes the body of a registration as JSON.
    pub fn body(&self) -> (s: String)
        ensures
            s@ == instance_text(*self),
    {
        let mut center: Vec<(String, String)> = Vec::new();
        push_text(&mut center, "name", self.data_center_name.as_str());
        push_text(&mut center, "@class", self.data_center_class.as_str());
        assert(crate::json::pair_texts(center@) =~= seq![
            ("name"@, crate::json::json_quoted(self.data_center_name@)),
            ("@class"@, crate::json::json_quoted(self.data_center_class@)),
        ]);
        let mut members: Vec<(String, String)> = Vec::new();
        push_text(&mut members, "instanceId", self.instance_id.as_str());
        push_text(&mut members, "hostName", self.host_name.as_str());
        push_member(&mut members, "port", self.port.body());
        push_text(&mut members, "app", self.app.as_str());
        push_text(&mut members, "ipAddr", self.ip_addr.as_str());
        push_text(&mut members, "vipAddress", self.vip_address.as_str());
        push_text(&mut members, "status", self.status.as_str());
        push_member(&mut members, "securePort", self.secure_port.body());
        push_text(&mut members, "homePageUrl", self.home_page_url.as_str());
        push_text(&mut members, "statusPageUrl", self.status_page_url.as_str());
        push_text(&mut members, "healthCheckUrl", self.health_check_url.as_str());
        push_member(&mut members, "dataCenterInfo", write_object(&center));
        push_member(&mut members, "metadata", write_text_map(pairs_of(&self.metadata)));
        assert(crate::json::pair_texts(members@) =~= instance_members(*self));
        let mut outer: Vec<(String, String)> = Vec::new();
        push_member(&mut outer, "instance", write_object(&members));
        assert(crate::json::pair_texts(outer@) =~= seq![
            ("instance"@, crate::json::object_text(instance_members(*self))),
        ]);
        write_object(&outer)
    }
}

impl WireEndpoint {
    /// The body that registers this endpoint.
    pub fn to_wire_instance(&self) -> (w: WireInstance)
        ensures
            w.instance_id@ == self@.instance_id,
            w.host_name@ == self@.app_id,
            w.port.number == self@.port && w.port.enabled@ == "true"@,
            w.app@ == self@.app_id,
            w.ip_addr@ == self@.ip,
            w.vip_address@ == self@.app_id,
            w.status@ == "UP"@,
            w.secure_port.number == self@.secure_port && w.secure_port.enabled@ == "false"@,
            w.home_page_url@ == self@.home_page_url,
            w.status_page_url@ == self@.status_page_url,
            w.health_check_url@ == self@.health_check_url,
            w.data_center_name@ == "MyOwn"@,
            w.data_center_class@ == "com.netflix.appinfo.InstanceInfo$DefaultDataCenterInfo"@,
            crate::json::map_texts(w.metadata@) == self@.metadata,
    {
        WireInstance {
            instance_id: self.instance_id.clone(),
            host_name: self.app_id.clone(),
            port: WirePort { number: self.port, enabled: "true".to_owned() },
            app: self.app_id.clone(),
            ip_addr: self.ip.clone(),
            vip_address: self.app_id.clone(),
            status: "UP".to_owned(),
            secure_port: WirePort { number: self.secure_port, enabled: "false".to_owned() },
            home_page_url: self.home_page_url.clone(),
            status_page_url: self.status_page_url.clone(),
            health_check_url: self.health_check_url.clone(),
            data_center_name: "MyOwn".to_owned(),
            data_center_class: "com.netflix.appinfo.InstanceInfo$DefaultDataCenterInfo".to_owned(),
            metadata: crate::json::copy_map(&self.metadata),
        }
    }

    /// The key of this endpoint's heartbeat task.
    pub fn task_key(&self) -> (s: String)
        ensures
            s@ == self@.app_id + "/"@ + self@.instance_id,
    {
        cat3(self.app_id.as_str(), "/", self.instance_id.as_str())
    }
}

/// The instance that registered metadata stands for.
pub open spec fn metadata_instance(m: Map<Seq<char>, Seq<char>>) -> crate::registry::InstanceView {
    crate::registry::InstanceView {
        id: given_or(m, "ID"@, Seq::empty()),
        name: given_or(m, "Name"@, Seq::empty()),
        version: given_or(m, "Version"@, Seq::empty()),
        endpoints: seq![given_or(m, "Endpoints"@, Seq::empty())],
    }
}

/// The entries of optional metadata.
pub open spec fn metadata_view(m: Option<StringMap<String>>) -> Map<Seq<char>, Seq<char>> {
    match m {
        Some(m) => crate::json::map_texts(m@),
        None => Map::empty(),
    }
}

/// Reads an instance back from its registered metadata.
pub fn rebuild(metadata: &Option<StringMap<String>>) -> (r: Instance)
    ensures
        r@ == metadata_instance(metadata_view(*metadata)),
{
    let mut endpoints: Vec<String> = Vec::new();
    endpoints.push(given(metadata, "Endpoints", String::new()));
    let r = Instance {
        id: given(metadata, "ID", String::new()),
        name: given(metadata, "Name", String::new()),
        version: given(metadata, "Version", String::new()),
        endpoints,
    };
    assert(r@.endpoints =~= metadata_instance(metadata_view(*metadata)).endpoints);
    r
}

/// Each registered endpoint is read back as the announced instance with that
/// endpoint alone, whatever else the metadata holds.
pub proof fn registered_endpoint_reads_back(
    r: crate::registry::RegistrationView,
    endpoint: Seq<char>,
)
    ensures
        metadata_instance(wire_endpoint(r, endpoint).metadata) == (crate::registry::InstanceView {
            id: r.instance.id,
            name: r.instance.name,
            version: r.instance.version,
            endpoints: seq![endpoint],
        }),
{
    reveal_strlit("ID");
    reveal_strlit("Name");
    reveal_strlit("Version");
    reveal_strlit("Endpoints");
    reveal_strlit("agent");
    assert("ID"@.len() == 2 && "Name"@.len() == 4 && "Version"@.len() == 7 && "Endpoints"@.len()
        == 9 && "agent"@.len() == 5);
}

/// An endpoint is registered at its own host and port, under the service's name
/// in upper case. What the metadata gives for one of the three pages or for the
/// secure port goes before what follows from the endpoint; a secure port that is
/// no number counts as 0.
pub proof fn metadata_goes_before_defaults(
    r: crate::registry::RegistrationView,
    endpoint: Seq<char>,
)
    ensures
        ({
            let w = wire_endpoint(r, endpoint);
            let at = crate::registry::endpoint::endpoint_parts(endpoint)->0;
            let app_id = crate::text::uppercase(r.instance.name);
            let given = |key: Seq<char>| r.metadata is Some && r.metadata->0.contains_key(key);
            &&& w.app_id == app_id
            &&& w.ip == at.host
            &&& w.port == at.port
            &&& w.instance_id == at.host + "."@ + app_id + ":"@ + crate::text::signed_decimal(
                at.port,
            )
            &&& w.home_page_url == (if given("homePageURL"@) {
                r.metadata->0["homePageURL"@]
            } else {
                endpoint + "/"@
            })
            &&& w.status_page_url == (if given("statusPageURL"@) {
                r.metadata->0["statusPageURL"@]
            } else {
                endpoint + "/info"@
            })
            &&& w.health_check_url == (if given("healthCheckURL"@) {
                r.metadata->0["healthCheckURL"@]
            } else {
                endpoint + "/health"@
            })
            &&& !given("securePort"@) ==> w.secure_port == 443
            &&& given("securePort"@) ==> match crate::text::parsed_i64(
                r.metadata->0["securePort"@],
            ) {
                Some(n) => w.secure_port == n,
                None => w.secure_port == 0,
            }
        }),
{
}

/// The metadata of an announcement goes along with each of its endpoints, but
/// for the five entries that say what is announced; nothing else is added.
pub proof fn metadata_goes_along(
    r: crate::registry::RegistrationView,
    endpoint: Seq<char>,
    key: Seq<char>,
)
    ensures
        ({
            let m = wire_endpoint(r, endpoint).metadata;
            let given = r.metadata is Some && r.metadata->0.contains_key(key);
            let own = key == "ID"@ || key == "Name"@ || key == "Version"@ || key == "Endpoints"@
                || key == "agent"@;
            &&& m.contains_key(key) == (given || own)
            &&& given && !own ==> m[key] == r.metadata->0[key]
            &&& key == "agent"@ ==> m[key] == "go-eureka-client"@
        }),
{
}

/// Metadata is read as an instance with one endpoint: each of its four entries
/// as it is given, and as an empty text where it is not.
pub proof fn missing_entries_are_empty(m: Map<Seq<char>, Seq<char>>)
    ensures
        ({
            let i = metadata_instance(m);
            &&& i.endpoints.len() == 1
            &&& m.contains_key("ID"@) ==> i.id == m["ID"@]
            &&& !m.contains_key("ID"@) ==> i.id.len() == 0
            &&& m.contains_key("Name"@) ==> i.name == m["Name"@]
            &&& !m.contains_key("Name"@) ==> i.name.len() == 0
            &&& m.contains_key("Version"@) ==> i.version == m["Version"@]
            &&& !m.contains_key("Version"@) ==> i.version.len() == 0
            &&& m.contains_key("Endpoints"@) ==> i.endpoints[0] == m["Endpoints"@]
            &&& !m.contains_key("Endpoints"@) ==> i.endpoints[0].len() == 0
        }),
{
}

/// Metadata that is there holds what its map does, and metadata that is not
/// there holds nothing.
pub proof fn absent_metadata_holds_nothing(m: Option<StringMap<String>>, key: Seq<char>)
    ensures
        m is None ==> !metadata_view(m).contains_key(key),
        m matches Some(held) ==> metadata_view(m).contains_key(key) == held@.contains_key(key),
        m matches Some(held) ==> held@.contains_key(key) ==> metadata_view(m)[key] == held@[key]@,
{
}

/// An instance in the list of applications, as far as it is read.
#[derive(Debug)]
pub struct WireInstanceOut {
    pub instance_id: Option<String>,
    pub status: Option<String>,
    pub metadata: Option<StringMap<String>>,
}

/// An application in the list.
#[derive(Debug)]
pub struct WireApplication {
    pub name: String,
    pub instance: Option<Vec<WireInstanceOut>>,
}

/// The instances that are up, read back in order.
pub open spec fn up_instances(l: Seq<WireInstanceOut>) -> Seq<crate::registry::InstanceView>
    decreases l.len(),
{
    if l.len() == 0 {
        Seq::empty()
    } else {
        let rest = up_instances(l.drop_last());
        if crate::text::opt_text(l.last().status) == Some("UP"@) {
            rest.push(metadata_instance(metadata_view(l.last().metadata)))
        } else {
            rest
        }
    }
}

/// The ids under which the instances that are up are listed, in order.
pub open spec fn up_ids(l: Seq<WireInstanceOut>) -> Seq<Seq<char>>
    decreases l.len(),
{
    if l.len() == 0 {
        Seq::empty()
    } else {
        let rest = up_ids(l.drop_last());
        if crate::text::opt_text(l.last().status) == Some("UP"@) && l.last().instance_id is Some {
            rest.push(l.last().instance_id->0@)
        } else {
            rest
        }
    }
}

/// The id of an instance that is up is among those listed.
pub proof fn up_instance_is_listed(l: Seq<WireInstanceOut>, i: int)
    requires
        0 <= i < l.len(),
        crate::text::opt_text(l[i].status) == Some("UP"@),
        l[i].instance_id is Some,
    ensures
        up_ids(l).contains(l[i].instance_id->0@),
    decreases l.len(),
{
    let id = l[i].instance_id->0@;
    let rest = up_ids(l.drop_last());
    if i == l.len() - 1 {
        assert(up_ids(l)[rest.len() as int] == id);
    } else {
        up_instance_is_listed(l.drop_last(), i);
        let j = rest.index_of(id);
        assert(up_ids(l)[j] == id);
    }
}

/// Each entry that is up is read once, in the order of the list: there are as
/// many instances as entries whose status is `UP`, and what such an entry's
/// metadata says stands at the position that the ones before it leave. Every
/// other entry is passed over.
pub proof fn each_up_entry_is_read_once(l: Seq<WireInstanceOut>)
    ensures
        crate::listing::picks(
            up_instances(l),
            l,
            |e: WireInstanceOut| e.status is Some && e.status->0@ == "UP"@,
            |e: WireInstanceOut| metadata_instance(metadata_view(e.metadata)),
        ),
        forall|i: int|
            #![trigger l[i]]
            0 <= i < l.len() && l[i].status is Some && l[i].status->0@ == "UP"@ ==> up_instances(
                l,
            ).contains(metadata_instance(metadata_view(l[i].metadata))),
    decreases l.len(),
{
    let up = |e: WireInstanceOut| e.status is Some && e.status->0@ == "UP"@;
    let says = |e: WireInstanceOut| metadata_instance(metadata_view(e.metadata));
    if l.len() == 0 {
        crate::listing::nothing_is_picked(up_instances(l), l, up, says);
    } else {
        each_up_entry_is_read_once(l.drop_last());
        crate::listing::picking_one_more(up_instances(l.drop_last()), l, up, says);
    }
    assert forall|i: int|
        #![trigger l[i]]
        0 <= i < l.len() && l[i].status is Some && l[i].status->0@
            == "UP"@ implies up_instances(l).contains(
        metadata_instance(metadata_view(l[i].metadata)),
    ) by {
        assert(up(l[i]));
        let at = crate::listing::rank(l, up, i);
        assert(up_instances(l)[at] == says(l[i]));
    }
}

/// Each entry that is up and has an id gives that id once, in the order of the
/// list; no other id is listed.
pub proof fn each_up_id_is_listed_once(l: Seq<WireInstanceOut>)
    ensures
        crate::listing::picks(
            up_ids(l),
            l,
            |e: WireInstanceOut|
                e.status is Some && e.status->0@ == "UP"@ && e.instance_id is Some,
            |e: WireInstanceOut| e.instance_id->0@,
        ),
    decreases l.len(),
{
    let up = |e: WireInstanceOut|
        e.status is Some && e.status->0@ == "UP"@ && e.instance_id is Some;
    let id = |e: WireInstanceOut| e.instance_id->0@;
    if l.len() == 0 {
        crate::listing::nothing_is_picked(up_ids(l), l, up, id);
    } else {
        each_up_id_is_listed_once(l.drop_last());
        crate::listing::picking_one_more(up_ids(l.drop_last()), l, up, id);
    }
}

/// The ids under which the instances of an application that are up are listed.
pub open spec fn application_ids(a: WireApplication) -> Seq<Seq<char>> {
    match a.instance {
        Some(l) => up_ids(l@),
        None => Seq::empty(),
    }
}

/// The instances of an application that are up.
pub open spec fn application_instances(a: WireApplication) -> Seq<crate::registry::InstanceView> {
    match a.instance {
        Some(l) => up_instances(l@),
        None => Seq::empty(),
    }
}

#[verifier::loop_isolation(false)]
fn read_application(a: &WireApplication) -> (g: Group)
    ensures
        groups(g, *a),
{
    let mut r: Vec<Instance> = Vec::new();
    let mut ids: Vec<String> = Vec::new();
    assert(crate::text::texts(ids@) =~= Seq::empty());
    assert(crate::registry::instance_views(r@) =~= Seq::empty());
    if let Some(l) = &a.instance {
        let mut i: usize = 0;
        assert(l@.take(0) =~= Seq::empty());
        while i < l.len()
            invariant
                i <= l@.len(),
                crate::registry::instance_views(r@) == up_instances(l@.take(i as int)),
                crate::text::texts(ids@) == up_ids(l@.take(i as int)),
            decreases l@.len() - i,
        {
            let ghost before = r@;
            let up: bool = match &l[i].status {
                Some(status) => same(status.as_str(), "UP"),
                None => false,
            };
            if up {
                let instance = rebuild(&l[i].metadata);
                r.push(instance);
                assert(crate::registry::instance_views(r@) =~= crate::registry::instance_views(
                    before,
                ).push(instance@));
                if let Some(id) = &l[i].instance_id {
                    let ghost were = ids@;
                    ids.push(id.clone());
                    assert(crate::text::texts(ids@) =~= crate::text::texts(were).push(id@));
                }
            }
            i += 1;
            assert(l@.take(i as int).drop_last() =~= l@.take(i - 1));
        }
        assert(l@.take(i as int) =~= l@);
    }
    Group { app_id: to_uppercase(a.name.as_str()), instances: r, ids }
}

/// An application of the list: the name in upper case, the instances that are
/// up, and the ids under which they are listed.
#[derive(Debug)]
pub struct Group {
    pub app_id: String,
    pub instances: Vec<Instance>,
    pub ids: Vec<String>,
}

/// What a [`Group`] made from an application holds.
pub open spec fn groups(g: Group, a: WireApplication) -> bool {
    &&& g.app_id@ == crate::text::uppercase(a.name@)
    &&& crate::registry::instance_views(g.instances@) == application_instances(a)
    &&& crate::text::texts(g.ids@) == application_ids(a)
}

/// A group holds its application's instances that are up and no others, one
/// for each entry whose status is `UP` and in their order, and their ids
/// likewise; an application without a list of instances has none.
pub proof fn group_holds_what_is_up(g: Group, a: WireApplication)
    requires
        groups(g, a),
    ensures
        g.app_id@ == crate::text::uppercase(a.name@),
        a.instance is None ==> g.instances@.len() == 0 && g.ids@.len() == 0,
        a.instance is Some ==> crate::listing::picks(
            Seq::new(g.instances@.len(), |i: int| g.instances@[i]@),
            a.instance->0@,
            |e: WireInstanceOut| e.status is Some && e.status->0@ == "UP"@,
            |e: WireInstanceOut| metadata_instance(metadata_view(e.metadata)),
        ),
        a.instance is Some ==> crate::listing::picks(
            Seq::new(g.ids@.len(), |i: int| g.ids@[i]@),
            a.instance->0@,
            |e: WireInstanceOut|
                e.status is Some && e.status->0@ == "UP"@ && e.instance_id is Some,
            |e: WireInstanceOut| e.instance_id->0@,
        ),
{
    let views = Seq::new(g.instances@.len(), |i: int| g.instances@[i]@);
    let ids = Seq::new(g.ids@.len(), |i: int| g.ids@[i]@);
    assert(views =~= crate::registry::instance_views(g.instances@));
    assert(ids =~= crate::text::texts(g.ids@));
    if let Some(l) = a.instance {
        each_up_entry_is_read_once(l@);
        each_up_id_is_listed_once(l@);
    }
}

/// Groups the list of applications.
pub fn group_applications(applications: &Vec<WireApplication>) -> (r: Vec<Group>)
    ensures
        r@.len() == applications@.len(),
        forall|i: int| 0 <= i < r@.len() ==> groups(#[trigger] r@[i], applications@[i]),
{
    let mut r: Vec<Group> = Vec::new();
    let mut i: usize = 0;
    while i < applications.len()
        invariant
            i <= applications@.len(),
            r@.len() == i,
            forall|j: int| 0 <= j < i ==> groups(#[trigger] r@[j], applications@[j]),
        decreases applications@.len() - i,
    {
        r.push(read_application(&applications[i]));
        i += 1;
    }
    r
}

/// The first group of an application in a grouped list.
pub open spec fn group_at(listing: Seq<Group>, app_id: Seq<char>) -> Option<Group>
    decreases listing.len(),
{
    if listing.len() == 0 {
        None
    } else if listing[0].app_id@ == app_id {
        Some(listing[0])
    } else {
        group_at(listing.skip(1), app_id)
    }
}

/// The group of an application is the first with its name: there is none only
/// where no group has the name.
pub proof fn first_group_of_the_name_counts(listing: Seq<Group>, app_id: Seq<char>, k: int)
    requires
        0 <= k <= listing.len(),
        forall|i: int| 0 <= i < k ==> (#[trigger] listing[i]).app_id@ != app_id,
        k < listing.len() ==> listing[k].app_id@ == app_id,
    ensures
        k < listing.len() ==> group_at(listing, app_id) == Some(listing[k]) && group_of(
            listing,
            app_id,
        ).len() == listing[k].instances@.len() && ids_of(listing, app_id).len()
            == listing[k].ids@.len(),
        k < listing.len() ==> forall|i: int|
            0 <= i < listing[k].instances@.len() ==> group_of(listing, app_id)[i]
                == (#[trigger] listing[k].instances@[i])@,
        k < listing.len() ==> forall|i: int|
            0 <= i < listing[k].ids@.len() ==> ids_of(listing, app_id)[i]
                == (#[trigger] listing[k].ids@[i])@,
        k == listing.len() ==> group_at(listing, app_id) is None && group_of(listing, app_id).len()
            == 0 && ids_of(listing, app_id).len() == 0,
    decreases listing.len(),
{
    if k > 0 {
        let rest = listing.skip(1);
        assert(listing[0].app_id@ != app_id);
        assert forall|i: int| 0 <= i < k - 1 implies (#[trigger] rest[i]).app_id@ != app_id by {
            assert(rest[i] == listing[i + 1]);
        }
        first_group_of_the_name_counts(rest, app_id, k - 1);
    }
}

/// The instances of an application in a grouped list: those of the first group
/// with its name, none where there is no such group.
pub open spec fn group_of(listing: Seq<Group>, app_id: Seq<char>) -> Seq<
    crate::registry::InstanceView,
> {
    match group_at(listing, app_id) {
        Some(g) => crate::registry::instance_views(g.instances@),
        None => Seq::empty(),
    }
}

/// The ids under which the instances of an application are listed in a grouped
/// list.
pub open spec fn ids_of(listing: Seq<Group>, app_id: Seq<char>) -> Seq<Seq<char>> {
    match group_at(listing, app_id) {
        Some(g) => crate::text::texts(g.ids@),
        None => Seq::empty(),
    }
}

/// An instance that is up in the first group of its application is among the
/// ids listed of the application, so that its endpoint is not registered again.
pub proof fn up_endpoint_is_listed(
    listing: Seq<Group>,
    app_id: Seq<char>,
    application: WireApplication,
    i: int,
)
    requires
        group_at(listing, app_id) matches Some(g) && groups(g, application),
        application.instance is Some,
        0 <= i < application.instance->0@.len(),
        crate::text::opt_text(application.instance->0@[i].status) == Some("UP"@),
        application.instance->0@[i].instance_id is Some,
    ensures
        ids_of(listing, app_id).contains(application.instance->0@[i].instance_id->0@),
{
    up_instance_is_listed(application.instance->0@, i);
}

fn find_group<'a>(listing: &'a Vec<Group>, app_id: &str) -> (r: Option<&'a Group>)
    ensures
        match r {
            Some(g) => group_at(listing@, app_id@) == Some(*g),
            None => group_at(listing@, app_id@) is None,
        },
{
    let mut i: usize = 0;
    assert(listing@.skip(0) =~= listing@);
    while i < listing.len()
        invariant
            i <= listing@.len(),
            group_at(listing@, app_id@) == group_at(listing@.skip(i as int), app_id@),
        decreases listing@.len() - i,
    {
        assert(listing@.skip(i as int)[0] == listing@[i as int]);
        assert(listing@.skip(i as int).skip(1) =~= listing@.skip(i + 1));
        if same(listing[i].app_id.as_str(), app_id) {
            return Some(&listing[i]);
        }
        i += 1;
    }
    None
}

/// The ids that are listed of an application, none where none are known.
pub open spec fn listed_ids(listed: Map<Seq<char>, Vec<String>>, app_id: Seq<char>) -> Seq<
    Seq<char>,
> {
    if listed.contains_key(app_id) {
        crate::text::texts(listed[app_id]@)
    } else {
        Seq::empty()
    }
}

/// The state of a eureka registry. `T` is whatever stands for a running
/// heartbeat task.
pub struct EurekaRegistry<T> {
    /// The servers, in the order in which they are tried.
    pub urls: Vec<String>,
    pub eureka_path: String,
    /// The watched applications, by name in upper case.
    pub sets: Snapshots,
    /// The ids under which the instances of the watched applications that are
    /// up were last listed, by the application's name in upper case.
    pub listed: StringMap<Vec<String>>,
    /// Heartbeat tasks by `{app}/{instance}`.
    pub heartbeat_tasks: StringMap<T>,
}

/// The tasks whose keys begin with a prefix, in the order of the keys.
pub open spec fn tasks_under<T>(
    keys: Seq<Seq<char>>,
    tasks: Map<Seq<char>, T>,
    prefix: Seq<char>,
) -> Seq<T>
    decreases keys.len(),
{
    if keys.len() == 0 {
        Seq::empty()
    } else {
        let rest = tasks_under(keys.drop_last(), tasks, prefix);
        if prefix.is_prefix_of(keys.last()) {
            rest.push(tasks[keys.last()])
        } else {
            rest
        }
    }
}

/// Every task whose key begins with the prefix is handed out, once and in the
/// order of the keys, and no other.
pub proof fn each_task_under_the_prefix_is_handed_out<T>(
    keys: Seq<Seq<char>>,
    tasks: Map<Seq<char>, T>,
    prefix: Seq<char>,
)
    ensures
        crate::listing::picks(
            tasks_under(keys, tasks, prefix),
            keys,
            |key: Seq<char>| prefix.is_prefix_of(key),
            |key: Seq<char>| tasks[key],
        ),
    decreases keys.len(),
{
    let under = |key: Seq<char>| prefix.is_prefix_of(key);
    let task = |key: Seq<char>| tasks[key];
    if keys.len() == 0 {
        crate::listing::nothing_is_picked(tasks_under(keys, tasks, prefix), keys, under, task);
    } else {
        let head = keys.drop_last();
        each_task_under_the_prefix_is_handed_out(head, tasks, prefix);
        crate::listing::picking_one_more(tasks_under(head, tasks, prefix), keys, under, task);
    }
}

/// The ids last put under an application are the ones listed of it; nothing is
/// listed of one that none were put under.
pub proof fn listed_ids_are_those_put(
    listed: Map<Seq<char>, Vec<String>>,
    app_id: Seq<char>,
    ids: Vec<String>,
    id: Seq<char>,
)
    ensures
        listed_ids(listed.insert(app_id, ids), app_id).contains(id) == exists|i: int|
            0 <= i < ids@.len() && (#[trigger] ids@[i])@ == id,
        !listed.contains_key(app_id) ==> !listed_ids(listed, app_id).contains(id),
{
    let texts = listed_ids(listed.insert(app_id, ids), app_id);
    if texts.contains(id) {
        let i = texts.index_of(id);
        assert(ids@[i]@ == id);
    }
    if exists|i: int| 0 <= i < ids@.len() && (#[trigger] ids@[i])@ == id {
        let i = choose|i: int| 0 <= i < ids@.len() && (#[trigger] ids@[i])@ == id;
        assert(texts[i] == id);
    }
}

impl<T> EurekaRegistry<T> {
    /// A registry on the servers at `urls`, with the default root.
    pub fn connect(urls: &Vec<String>) -> (r: Result<Self, RegistryError>)
        ensures
            r matches Ok(registry) && crate::text::texts(registry.urls@) == Seq::new(
                urls@.len(),
                |i: int| crate::text::without_trailing_slashes(urls@[i]@),
            ) && registry.eureka_path@ == DEFAULT_EUREKA_PATH@ && registry.sets@ == Map::<
                Seq<char>,
                Seq<crate::registry::InstanceView>,
            >::empty() && registry.listed@ == Map::<Seq<char>, Vec<String>>::empty()
                && registry.heartbeat_tasks@ == Map::<Seq<char>, T>::empty(),
    {
        Self::connect_with(urls, DEFAULT_EUREKA_PATH)
    }

    /// A registry on the servers at `urls`.
    pub fn connect_with(urls: &Vec<String>, eureka_path: &str) -> (r: Result<Self, RegistryError>)
        ensures
            r matches Ok(registry) && crate::text::texts(registry.urls@) == Seq::new(
                urls@.len(),
                |i: int| crate::text::without_trailing_slashes(urls@[i]@),
            ) && registry.eureka_path@ == eureka_path@ && registry.sets@ == Map::<
                Seq<char>,
                Seq<crate::registry::InstanceView>,
            >::empty() && registry.listed@ == Map::<Seq<char>, Vec<String>>::empty()
                && registry.heartbeat_tasks@ == Map::<Seq<char>, T>::empty(),
    {
        let mut bases: Vec<String> = Vec::new();
        let mut i: usize = 0;
        while i < urls.len()
            invariant
                i <= urls@.len(),
                bases@.len() == i,
                forall|j: int|
                    0 <= j < i ==> (#[trigger] bases@[j])@ == crate::text::without_trailing_slashes(
                        urls@[j]@,
                    ),
            decreases urls@.len() - i,
        {
            bases.push(trim_end_slashes(urls[i].as_str()));
            i += 1;
        }
        assert(crate::text::texts(bases@) =~= Seq::new(
            urls@.len(),
            |i: int| crate::text::without_trailing_slashes(urls@[i]@),
        ));
        Ok(
            EurekaRegistry {
                urls: bases,
                eureka_path: eureka_path.to_owned(),
                sets: Snapshots::new(),
                listed: StringMap::new(),
                heartbeat_tasks: StringMap::new(),
            },
        )
    }

    /// A registry as its settings ask for it.
    pub fn from_settings(settings: &EurekaSettings) -> (r: Result<Self, RegistryError>)
        ensures
            r matches Ok(registry) && crate::text::texts(registry.urls@) == Seq::new(
                settings.urls@.len(),
                |i: int| crate::text::without_trailing_slashes(settings.urls@[i]@),
            ) && registry.eureka_path@ == match settings.eureka_path {
                Some(p) => p@,
                None => DEFAULT_EUREKA_PATH@,
            } && registry.sets@ == Map::<
                Seq<char>,
                Seq<crate::registry::InstanceView>,
            >::empty() && registry.listed@ == Map::<Seq<char>, Vec<String>>::empty()
                && registry.heartbeat_tasks@ == Map::<Seq<char>, T>::empty(),
    {
        match &settings.eureka_path {
            Some(p) => Self::connect_with(&settings.urls, p.as_str()),
            None => Self::connect_with(&settings.urls, DEFAULT_EUREKA_PATH),
        }
    }

    /// What is to be registered for one endpoint of an announcement: nothing
    /// where its application is watched and the endpoint's instance is listed
    /// as up.
    #[verifier::loop_isolation(false)]
    pub fn plan_endpoint(&self, registration: &Registration, endpoint: &str) -> (r: Result<
        Option<WireEndpoint>,
        RegistryError,
    >)
        ensures
            match crate::registry::endpoint::endpoint_parts(endpoint@) {
                None => crate::registry::failed(r, "endpoint parse: "@ + endpoint@),
                Some(_) => {
                    let wire = wire_endpoint(registration@, endpoint@);
                    if listed_ids(self.listed@, wire.app_id).contains(wire.instance_id) {
                        r matches Ok(None)
                    } else {
                        r matches Ok(Some(w)) && w@ == wire
                    }
                },
            },
    {
        let wire = build_wire_endpoint(registration, endpoint)?;
        let up = match self.listed.get(wire.app_id.as_str()) {
            Some(up) => up,
            None => {
                return Ok(Some(wire));
            },
        };
        let mut i: usize = 0;
        while i < up.len()
            invariant
                i <= up@.len(),
                forall|j: int| 0 <= j < i ==> (#[trigger] up@[j])@ != wire@.instance_id,
            decreases up@.len() - i,
        {
            if same(up[i].as_str(), wire.instance_id.as_str()) {
                assert(crate::text::texts(up@)[i as int] == wire@.instance_id);
                return Ok(None);
            }
            i += 1;
        }
        assert(!crate::text::texts(up@).contains(wire@.instance_id)) by {
            if crate::text::texts(up@).contains(wire@.instance_id) {
                let j = crate::text::texts(up@).index_of(wire@.instance_id);
                assert(up@[j]@ == wire@.instance_id);
            }
        }
        Ok(Some(wire))
    }

    /// Remembers the heartbeat task of a registered endpoint. An earlier one is
    /// handed back, to be stopped.
    pub fn keep_task(&mut self, wire: &WireEndpoint, task: T) -> (r: Option<T>)
        ensures
            ({
                let key = wire@.app_id + "/"@ + wire@.instance_id;
                &&& final(self).heartbeat_tasks@ == old(self).heartbeat_tasks@.insert(key, task)
                &&& r == (if old(self).heartbeat_tasks@.contains_key(key) {
                    Some(old(self).heartbeat_tasks@[key])
                } else {
                    None
                })
            }),
            final(self).urls == old(self).urls,
            final(self).eureka_path == old(self).eureka_path,
            final(self).sets == old(self).sets,
            final(self).listed == old(self).listed,
    {
        self.heartbeat_tasks.insert(wire.task_key(), task)
    }

    /// Gives the heartbeat task under a key up, for it to be stopped.
    pub fn drop_task(&mut self, key: &str) -> (r: Option<T>)
        ensures
            final(self).heartbeat_tasks@ == old(self).heartbeat_tasks@.remove(key@),
            match r {
                Some(task) => old(self).heartbeat_tasks@.contains_key(key@) && task
                    == old(self).heartbeat_tasks@[key@],
                None => !old(self).heartbeat_tasks@.contains_key(key@),
            },
            final(self).urls == old(self).urls,
            final(self).eureka_path == old(self).eureka_path,
            final(self).sets == old(self).sets,
            final(self).listed == old(self).listed,
    {
        self.heartbeat_tasks.remove(key)
    }

    /// Gives every heartbeat task of an application up, for them to be
    /// stopped; the tasks of other applications stay.
    #[verifier::loop_isolation(false)]
    pub fn drop_tasks(&mut self, app_id: &str) -> (r: Vec<T>)
        ensures
            r@ == tasks_under(
                old(self).heartbeat_tasks.keys(),
                old(self).heartbeat_tasks@,
                app_id@ + "/"@,
            ),
            forall|key: Seq<char>| #[trigger]
                final(self).heartbeat_tasks@.contains_key(key)
                    <==> old(self).heartbeat_tasks@.contains_key(key)
                    && !(app_id@ + "/"@).is_prefix_of(key),
            forall|key: Seq<char>| #[trigger]
                final(self).heartbeat_tasks@.contains_key(key) ==> final(self).heartbeat_tasks@[key]
                    == old(self).heartbeat_tasks@[key],
            final(self).urls == old(self).urls,
            final(self).eureka_path == old(self).eureka_path,
            final(self).sets == old(self).sets,
            final(self).listed == old(self).listed,
    {
        let prefix = cat(app_id, "/");
        let ghost before = self.heartbeat_tasks@;
        let n: usize = self.heartbeat_tasks.len();
        let ghost all = self.heartbeat_tasks.keys();
        let mut keys: Vec<String> = Vec::new();
        let mut i: usize = 0;
        while i < n
            invariant
                i <= n == all.len(),
                all == self.heartbeat_tasks.keys(),
                keys@.len() == i,
                forall|j: int| 0 <= j < i ==> (#[trigger] keys@[j])@ == all[j],
            decreases n - i,
        {
            keys.push(self.heartbeat_tasks.key_at(i).clone());
            i += 1;
        }
        let mut r: Vec<T> = Vec::new();
        let mut k: usize = 0;
        assert(all.take(0) =~= Seq::<Seq<char>>::empty());
        while k < keys.len()
            invariant
                k <= keys@.len() == n == all.len(),
                forall|j: int| 0 <= j < n ==> (#[trigger] keys@[j])@ == all[j],
                all.no_duplicates(),
                before.dom() == all.to_set(),
                r@ == tasks_under(all.take(k as int), before, prefix@),
                forall|key: Seq<char>| #[trigger]
                    self.heartbeat_tasks@.contains_key(key) <==> before.contains_key(key) && !(
                    prefix@.is_prefix_of(key) && all.take(k as int).contains(key)),
                forall|key: Seq<char>| #[trigger]
                    self.heartbeat_tasks@.contains_key(key) ==> self.heartbeat_tasks@[key]
                        == before[key],
                self.urls == old(self).urls,
                self.eureka_path == old(self).eureka_path,
                self.sets == old(self).sets,
                self.listed == old(self).listed,
            decreases n - k,
        {
            let ghost now = all.take(k as int);
            let ghost key = all[k as int];
            proof {
                assert(all.to_set().contains(key));
                assert(!now.contains(key)) by {
                    if now.contains(key) {
                        let j = now.index_of(key);
                        assert(all[j] == all[k as int]);
                    }
                }
                assert(all.take(k + 1).drop_last() =~= now);
                assert(all.take(k + 1) =~= now.push(key));
                assert forall|other: Seq<char>| #[trigger]
                    all.take(k + 1).contains(other) == (now.contains(other) || other == key) by {
                    if now.contains(other) {
                        let j = now.index_of(other);
                        assert(all.take(k + 1)[j] == other);
                    }
                    assert(all.take(k + 1)[k as int] == key);
                }
            }
            let found = strip_prefix(keys[k].as_str(), prefix.as_str());
            if let Some(rest) = found {
                proof {
                    assert(key == prefix@ + rest@);
                    assert(key.subrange(0, prefix@.len() as int) =~= prefix@);
                }
                if let Some(task) = self.heartbeat_tasks.remove(keys[k].as_str()) {
                    r.push(task);
                }
            }
            k += 1;
        }
        proof {
            assert(all.take(k as int) =~= all);
            assert forall|key: Seq<char>| #[trigger] before.contains_key(key) implies all.contains(
                key,
            ) by {
                assert(all.to_set().contains(key));
            }
        }
        r
    }

    /// The instances of a service where its application is watched.
    pub fn cached(&self, service_name: &str) -> (r: Option<Vec<Instance>>)
        ensures
            ({
                let app_id = crate::text::uppercase(service_name@);
                match r {
                    Some(l) => self.sets@.contains_key(app_id) && crate::registry::instance_views(
                        l@,
                    ) == self.sets@[app_id],
                    None => !self.sets@.contains_key(app_id),
                }
            }),
    {
        self.sets.get(to_uppercase(service_name).as_str())
    }

    /// Begins to watch a service's application. Hands back its name in upper
    /// case.
    pub fn begin_watch(&mut self, service_name: &str) -> (app_id: String)
        ensures
            app_id@ == crate::text::uppercase(service_name@),
            final(self).sets@ == if old(self).sets@.contains_key(app_id@) {
                old(self).sets@
            } else {
                old(self).sets@.insert(app_id@, Seq::empty())
            },
            final(self).listed == old(self).listed,
            final(self).urls == old(self).urls,
            final(self).eureka_path == old(self).eureka_path,
            final(self).heartbeat_tasks == old(self).heartbeat_tasks,
    {
        let app_id = to_uppercase(service_name);
        self.sets.begin_watch(app_id.as_str());
        app_id
    }

    /// Takes a freshly fetched list: every watched application gets its
    /// instances and their ids from it, and one that is not in the list gets
    /// none. Only what changed is broadcast; hands back the applications that
    /// did.
    #[verifier::loop_isolation(false)]
    pub fn refresh(&mut self, listing: &Vec<Group>) -> (changed: Vec<String>)
        ensures
            final(self).sets@.dom() == old(self).sets@.dom(),
            forall|app_id: Seq<char>| #[trigger]
                final(self).sets@.contains_key(app_id) ==> final(self).sets@[app_id] == group_of(
                    listing@,
                    app_id,
                ),
            forall|app_id: Seq<char>| #[trigger]
                listed_ids(final(self).listed@, app_id) == if old(self).sets@.contains_key(app_id) {
                    ids_of(listing@, app_id)
                } else {
                    listed_ids(old(self).listed@, app_id)
                },
            forall|app_id: Seq<char>| #[trigger]
                crate::text::texts(changed@).contains(app_id) <==> old(self).sets@.contains_key(
                    app_id,
                ) && old(self).sets@[app_id] != group_of(listing@, app_id),
            final(self).urls == old(self).urls,
            final(self).eureka_path == old(self).eureka_path,
            final(self).heartbeat_tasks == old(self).heartbeat_tasks,
    {
        let ghost before = self.sets@;
        let ghost known = self.listed@;
        let n: usize = self.sets.len();
        let ghost names = self.sets.names();
        let mut changed: Vec<String> = Vec::new();
        let mut i: usize = 0;
        assert(crate::text::texts(changed@) =~= Seq::<Seq<char>>::empty());
        while i < n
            invariant
                i <= n == names.len(),
                names.no_duplicates(),
                before.dom() == names.to_set(),
                self.sets.names() == names,
                self.sets@.dom() == before.dom(),
                forall|app_id: Seq<char>| #[trigger]
                    self.sets@.contains_key(app_id) ==> self.sets@[app_id] == if names.take(
                        i as int,
                    ).contains(app_id) {
                        group_of(listing@, app_id)
                    } else {
                        before[app_id]
                    },
                forall|app_id: Seq<char>| #[trigger]
                    listed_ids(self.listed@, app_id) == if names.take(i as int).contains(app_id) {
                        ids_of(listing@, app_id)
                    } else {
                        listed_ids(known, app_id)
                    },
                forall|app_id: Seq<char>| #[trigger]
                    crate::text::texts(changed@).contains(app_id) <==> names.take(
                        i as int,
                    ).contains(app_id) && before[app_id] != group_of(listing@, app_id),
                self.urls == old(self).urls,
                self.eureka_path == old(self).eureka_path,
                self.heartbeat_tasks == old(self).heartbeat_tasks,
            decreases n - i,
        {
            let ghost now = names.take(i as int);
            let ghost name = names[i as int];
            let ghost were = crate::text::texts(changed@);
            let ghost held = self.sets@;
            proof {
                assert(names.to_set().contains(name));
                assert(!now.contains(name)) by {
                    if now.contains(name) {
                        let j = now.index_of(name);
                        assert(names[j] == names[i as int]);
                    }
                }
                assert forall|other: Seq<char>| #[trigger]
                    names.take(i + 1).contains(other) == (now.contains(other) || other == name) by {
                    if now.contains(other) {
                        let j = now.index_of(other);
                        assert(names.take(i + 1)[j] == other);
                    }
                    if names.take(i + 1).contains(other) {
                        let j = names.take(i + 1).index_of(other);
                        if j < i {
                            assert(now[j] == other);
                        }
                    }
                    assert(names.take(i + 1)[i as int] == name);
                }
            }
            let app_id = self.sets.name_at(i).clone();
            let (instances, ids) = match find_group(listing, app_id.as_str()) {
                Some(g) => (copy_instances(&g.instances), copy_texts(&g.ids)),
                None => {
                    let none: Vec<Instance> = Vec::new();
                    let unlisted: Vec<String> = Vec::new();
                    assert(crate::registry::instance_views(none@) =~= Seq::empty());
                    assert(crate::text::texts(unlisted@) =~= Seq::<Seq<char>>::empty());
                    (none, unlisted)
                },
            };
            let ghost were_listed = self.listed@;
            self.listed.insert(app_id.clone(), ids);
            assert forall|other: Seq<char>| other != name implies #[trigger] listed_ids(
                self.listed@,
                other,
            ) == listed_ids(were_listed, other) by {}
            if self.sets.publish_change(app_id.as_str(), instances) {
                changed.push(app_id);
                proof {
                    let are = crate::text::texts(changed@);
                    assert(are =~= were.push(name));
                    assert forall|other: Seq<char>| #[trigger]
                        are.contains(other) == (were.contains(other) || other == name) by {
                        if were.contains(other) {
                            let j = were.index_of(other);
                            assert(are[j] == other);
                        }
                        assert(are[were.len() as int] == name);
                    }
                }
            }
            assert(self.sets@.dom() =~= before.dom());
            i += 1;
        }
        proof {
            assert(names.take(n as int) =~= names);
            assert forall|app_id: Seq<char>| before.contains_key(app_id)
                implies #[trigger] names.contains(
                app_id,
            ) by {
                assert(names.to_set().contains(app_id));
            }
        }
        changed
    }

    /// The address of a request at a server.
    pub fn request_url(&self, server: &str, path: &Vec<String>) -> (s: String)
        ensures
            s@ == server@ + "/"@ + self.eureka_path@ + "/"@ + crate::text::joined(
                crate::text::texts(path@),
                "/"@,
            ),
    {
        let mut s: String = cat3(server, "/", self.eureka_path.as_str());
        s.append("/");
        s.append(join(path, "/").as_str());
        s
    }

    /// Begins a request: the servers are put in a new order, drawn from
    /// `nanos`. It fails where there are none.
    pub fn begin_request(&mut self, nanos: u32) -> (r: Result<(), RegistryError>)
        requires
            old(self).urls@.len() <= u32::MAX,
        ensures
            if old(self).urls@.len() == 0 {
                crate::registry::failed(r, "eureka: no servers"@)
            } else {
                r is Ok
            },
            final(self).urls@ == shuffled(old(self).urls@, nanos),
            final(self).eureka_path == old(self).eureka_path,
            final(self).sets == old(self).sets,
            final(self).listed == old(self).listed,
            final(self).heartbeat_tasks == old(self).heartbeat_tasks,
    {
        if self.urls.len() == 0 {
            return Err(RegistryError::Failed("eureka: no servers".to_owned()));
        }
        shuffle(&mut self.urls, nanos);
        Ok(())
    }
}

/// One step of the generator that the order of servers is drawn with.
pub open spec fn xorshift(state: u32) -> u32 {
    let a = state ^ (state << 13);
    let b = a ^ (a >> 17);
    b ^ (b << 5)
}

/// A list with the items at two positions exchanged.
pub open spec fn swapped<A>(s: Seq<A>, i: int, j: int) -> Seq<A> {
    s.update(i, s[j]).update(j, s[i])
}

/// A list shuffled from its end down to the position `index`.
pub open spec fn shuffled_down<A>(s: Seq<A>, state: u32, index: int) -> Seq<A>
    decreases index,
{
    if index <= 0 || index >= s.len() {
        s
    } else {
        let next = xorshift(state);
        shuffled_down(swapped(s, index, next as int % (index + 1)), next, index - 1)
    }
}

/// A list in an order drawn from `nanos`.
pub open spec fn shuffled<A>(s: Seq<A>, nanos: u32) -> Seq<A> {
    let seed = if nanos == 0 {
        1u32
    } else {
        nanos
    };
    shuffled_down(s, seed, s.len() - 1)
}

/// Puts the servers in an order drawn from `nanos`.
#[verifier::loop_isolation(false)]
pub fn shuffle(urls: &mut Vec<String>, nanos: u32)
    requires
        old(urls)@.len() <= u32::MAX,
    ensures
        final(urls)@ == shuffled(old(urls)@, nanos),
{
    if urls.len() == 0 {
        return;
    }
    let mut state: u32 = if nanos == 0 {
        1
    } else {
        nanos
    };
    let mut index: usize = urls.len() - 1;
    let ghost goal = shuffled(urls@, nanos);
    while index > 0
        invariant
            index < urls@.len() == old(urls)@.len(),
            goal == shuffled_down(urls@, state, index as int),
        decreases index,
    {
        let ghost before = urls@;
        let ghost was = state;
        state = state ^ (state << 13);
        state = state ^ (state >> 17);
        state = state ^ (state << 5);
        assert(state == xorshift(was));
        let swap: usize = (state as u64 % (index as u64 + 1)) as usize;
        let a = urls[index].clone();
        let b = urls[swap].clone();
        urls.set(index, b);
        urls.set(swap, a);
        assert(urls@ =~= swapped(before, index as int, swap as int));
        index -= 1;
    }
}

proof fn lemma_swap_keeps<A>(s: Seq<A>, i: int, j: int)
    requires
        0 <= i < s.len(),
        0 <= j < s.len(),
    ensures
        swapped(s, i, j).to_multiset() == s.to_multiset(),
        swapped(s, i, j).len() == s.len(),
{
    broadcast use vstd::seq_lib::group_to_multiset_ensures;

    vstd::seq_lib::to_multiset_update(s, i, s[j]);
    vstd::seq_lib::to_multiset_update(s.update(i, s[j]), j, s[i]);
    assert(swapped(s, i, j).to_multiset() =~= s.to_multiset());
}

proof fn lemma_shuffle_down_keeps<A>(s: Seq<A>, state: u32, index: int)
    requires
        index < s.len(),
    ensures
        shuffled_down(s, state, index).to_multiset() == s.to_multiset(),
        shuffled_down(s, state, index).len() == s.len(),
    decreases index,
{
    if index > 0 {
        let next = xorshift(state);
        let j = next as int % (index + 1);
        lemma_swap_keeps(s, index, j);
        lemma_shuffle_down_keeps(swapped(s, index, j), next, index - 1);
    }
}

/// Shuffling neither loses nor adds a server.
pub proof fn shuffle_keeps_servers<A>(s: Seq<A>, nanos: u32)
    ensures
        shuffled(s, nanos).to_multiset() == s.to_multiset(),
        shuffled(s, nanos).len() == s.len(),
{
    let seed = if nanos == 0 {
        1u32
    } else {
        nanos
    };
    lemma_shuffle_down_keeps(s, seed, s.len() - 1);
}

proof fn lemma_shuffle_leaves_the_end<A>(s: Seq<A>, state: u32, index: int, k: int)
    requires
        index < k < s.len(),
    ensures
        shuffled_down(s, state, index)[k] == s[k],
    decreases index,
{
    if index > 0 {
        let next = xorshift(state);
        let j = next as int % (index + 1);
        lemma_shuffle_leaves_the_end(swapped(s, index, j), next, index - 1, k);
    }
}

/// The last place is drawn first: it goes to the server at what the generator's
/// first number, made from `nanos` by three shifts, leaves over the number of
/// servers. No fraction of a second counts as one nanosecond.
pub proof fn last_place_is_drawn_first<A>(s: Seq<A>, nanos: u32)
    requires
        s.len() > 1,
    ensures
        ({
            let seed = if nanos == 0 {
                1u32
            } else {
                nanos
            };
            let a = seed ^ (seed << 13);
            let b = a ^ (a >> 17);
            let draw = b ^ (b << 5);
            shuffled(s, nanos).last() == s[draw as int % s.len() as int]
        }),
        shuffled(s, 0) == shuffled(s, 1),
{
    let seed = if nanos == 0 {
        1u32
    } else {
        nanos
    };
    let n = s.len() - 1;
    let next = xorshift(seed);
    let j = next as int % (n + 1);
    lemma_shuffle_leaves_the_end(swapped(s, n, j), next, n - 1, n);
    shuffle_keeps_servers(s, nanos);
}

/// What trying one server has come to.
#[derive(Debug)]
pub enum ServerReply {
    /// The server could not be reached.
    Unreachable,
    /// The status, and what reading the body gave.
    Status(u16, Result<String, String>),
}

/// How a request goes on.
#[derive(Debug)]
pub enum RequestStep {
    /// Try the server at this position.
    Try(usize),
    /// The request is answered.
    Answer(String),
    /// The request failed.
    Fail(RegistryError),
}

/// What the reply of the server at position `attempt` leads to: a server that
/// cannot be reached hands over to the next, any other reply settles the
/// request. A status below 400 answers with its body.
pub fn server_replied(attempt: usize, servers: usize, reply: ServerReply) -> (r: RequestStep)
    requires
        attempt < servers,
    ensures
        match reply {
            ServerReply::Unreachable => if attempt + 1 < servers {
                r == RequestStep::Try((attempt + 1) as usize)
            } else {
                r matches RequestStep::Fail(e) && e.reason() == "eureka: retry after all servers"@
            },
            ServerReply::Status(status, body) => if status >= 400 {
                r matches RequestStep::Fail(e) && e.reason() == "eureka: response Error "@
                    + crate::text::decimal(status as nat)
            } else {
                match body {
                    Ok(text) => r matches RequestStep::Answer(got) && got@ == text@,
                    Err(e) => r matches RequestStep::Fail(f) && f.reason()
                        == "eureka: read body: "@ + e@,
                }
            },
        },
{
    match reply {
        ServerReply::Unreachable => {
            if attempt < servers - 1 {
                RequestStep::Try(attempt + 1)
            } else {
                RequestStep::Fail(
                    RegistryError::Failed("eureka: retry after all servers".to_owned()),
                )
            }
        },
        ServerReply::Status(status, body) => {
            if status >= 400 {
                return RequestStep::Fail(
                    RegistryError::Failed(
                        cat("eureka: response Error ", decimal_text(status as u64).as_str()),
                    ),
                );
            }
            match body {
                Ok(text) => RequestStep::Answer(text),
                Err(e) => RequestStep::Fail(
                    RegistryError::Failed(cat("eureka: read body: ", e.as_str())),
                ),
            }
        },
    }
}

/// The failures of a heartbeat since its instance was last registered.
#[derive(Debug, Clone, Copy, PartialEq, Eq, Structural)]
pub struct Heartbeat {
    pub failures: u32,
}

/// How often the instance is registered again over some heartbeats, so many
/// failures being counted before them.
pub open spec fn registrations(failures: int, sent: Seq<bool>) -> nat
    decreases sent.len(),
{
    if sent.len() == 0 {
        0
    } else if sent[0] {
        registrations(failures, sent.skip(1))
    } else if failures == 2 {
        registrations(0, sent.skip(1)) + 1
    } else {
        registrations(failures + 1, sent.skip(1))
    }
}

/// The instance is registered again once for every three heartbeats that fail,
/// wherever they stand among those that succeed.
pub proof fn every_third_failure_registers(failures: int, sent: Seq<bool>)
    requires
        0 <= failures < 3,
    ensures
        registrations(failures, sent) == (failures + sent.filter(|ok: bool| !ok).len()) / 3,
    decreases sent.len(),
{
    let failed = |ok: bool| !ok;
    if sent.len() == 0 {
        reveal(Seq::filter);
    } else {
        let rest = sent.skip(1);
        assert(sent =~= seq![sent[0]] + rest);
        Seq::filter_distributes_over_add(seq![sent[0]], rest, failed);
        assert(seq![sent[0]].filter(failed).len() == if sent[0] {
            0nat
        } else {
            1nat
        }) by {
            reveal(Seq::filter);
            assert(seq![sent[0]].drop_last() =~= Seq::empty());
            assert(Seq::<bool>::empty().filter(failed).len() == 0);
        }
        let next: int = if sent[0] {
            failures
        } else if failures == 2 {
            0
        } else {
            failures + 1
        };
        every_third_failure_registers(next, rest);
    }
}

impl Heartbeat {
    /// Fewer than three failures are counted.
    pub open spec fn wf(&self) -> bool {
        self.failures < 3
    }

    /// A heartbeat that has not failed.
    pub fn new() -> (h: Heartbeat)
        ensures
            h.wf(),
            h.failures == 0,
    {
        Heartbeat { failures: 0 }
    }

    /// Takes the outcome of one heartbeat. Hands back whether the instance
    /// has to be registered again, which is so with the third failure;
    /// heartbeats that succeed in between do not take failures back.
    pub fn sent(&mut self, ok: bool) -> (register: bool)
        requires
            old(self).wf(),
        ensures
            final(self).wf(),
            register == (!ok && old(self).failures == 2),
            final(self).failures == if ok {
                old(self).failures as int
            } else if register {
                0
            } else {
                old(self).failures + 1
            },
            forall|later: Seq<bool>|
                registrations(old(self).failures as int, seq![ok] + later) == #[trigger] registrations(
                    final(self).failures as int,
                    later,
                ) + (if register {
                    1nat
                } else {
                    0nat
                }),
    {
        proof {
            assert forall|later: Seq<bool>| (#[trigger] (seq![ok] + later)).skip(1) == later
                && (seq![ok] + later)[0] == ok by {
                assert((seq![ok] + later).skip(1) =~= later);
            }
        }
        if ok {
            return false;
        }
        self.failures = self.failures + 1;
        if self.failures >= 3 {
            self.failures = 0;
            true
        } else {
            false
        }
    }
}

} // verus!
