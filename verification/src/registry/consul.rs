//! Consul: the agent's registration and health-view shapes, the heartbeat
//! that keeps a registration passing, and the cache behind watchers.
//!
//! A registration carries the version in a `version=` tag and each endpoint
//! URL as a tagged address under its scheme. Reading goes the other way:
//! tagged addresses, the agent's own `lan` and `wan` ones left out, become
//! endpoints again.
use vstd::prelude::*;

use crate::json::{
    ordered, pairs_of, push_member, push_opt_member, push_opt_text, push_text, write_list,
    write_object, write_text_map, write_texts,
};
use crate::registry::endpoint::{endpoint_url, host_port, split_endpoint};
use crate::registry::snapshots::Snapshots;
use crate::registry::{Instance, Registration, RegistryError};
use crate::string_map::StringMap;
use crate::text::{
    cat, decimal_text, parse_u64, same, signed_decimal_text, strip_prefix, trim_end_slashes,
};

verus! {

/// How long a blocking query may wait.
pub const BLOCKING_WAIT: &'static str = "55000ms";

/// The body that marks a check as passing.
pub const PASSING_UPDATE: &'static str = "{\"Status\":\"passing\",\"Output\":\"pass\"}";

/// What the registrar registers beside the service itself.
#[derive(Debug)]
pub struct ConsulOptions {
    /// Whether a TCP check is registered for each endpoint.
    pub enable_health_check: bool,
    /// Whether a TTL check is registered and kept passing.
    pub heartbeat: bool,
    /// The check interval in seconds; the TTL is twice this.
    pub healthcheck_interval_secs: u64,
    /// After how many seconds in the critical state a service is dropped.
    pub deregister_critical_after_secs: u64,
    /// How long a health query may take, in nanoseconds.
    pub timeout: u128,
}

impl Default for ConsulOptions {
    fn default() -> (r: Self)
        ensures
            r == (ConsulOptions {
                enable_health_check: true,
                heartbeat: true,
                healthcheck_interval_secs: 10,
                deregister_critical_after_secs: 600,
                timeout: 10_000_000_000,
            }),
    {
        ConsulOptions {
            enable_health_check: true,
            heartbeat: true,
            healthcheck_interval_secs: 10,
            deregister_critical_after_secs: 600,
            timeout: 10_000_000_000,
        }
    }
}

impl Clone for ConsulOptions {
    fn clone(&self) -> (r: Self)
        ensures
            r == *self,
    {
        ConsulOptions {
            enable_health_check: self.enable_health_check,
            heartbeat: self.heartbeat,
            healthcheck_interval_secs: self.healthcheck_interval_secs,
            deregister_critical_after_secs: self.deregister_critical_after_secs,
            timeout: self.timeout,
        }
    }
}

/// The settings that a consul registry is made from.
#[derive(Debug)]
pub struct ConsulSettings {
    /// The agent's address.
    pub addr: String,
}

/// A tagged address: an endpoint URL and its port.
#[derive(Debug)]
pub struct WireServiceAddress {
    pub address: String,
    pub port: i64,
}

/// What a [`WireServiceAddress`] holds.
pub struct AddressView {
    pub address: Seq<char>,
    pub port: int,
}

impl View for WireServiceAddress {
    type V = AddressView;

    open spec fn view(&self) -> AddressView {
        AddressView { address: self.address@, port: self.port as int }
    }
}

/// A health check to register. Absent fields are left out of the request.
#[derive(Debug)]
pub struct WireCheck {
    pub tcp: Option<String>,
    pub interval: Option<String>,
    pub timeout: Option<String>,
    pub deregister_critical_service_after: Option<String>,
    pub check_id: Option<String>,
    pub ttl: Option<String>,
}

/// What a [`WireCheck`] holds.
pub struct CheckView {
    pub tcp: Option<Seq<char>>,
    pub interval: Option<Seq<char>>,
    pub timeout: Option<Seq<char>>,
    pub deregister_critical_service_after: Option<Seq<char>>,
    pub check_id: Option<Seq<char>>,
    pub ttl: Option<Seq<char>>,
}

impl View for WireCheck {
    type V = CheckView;

    open spec fn view(&self) -> CheckView {
        CheckView {
            tcp: crate::text::opt_text(self.tcp),
            interval: crate::text::opt_text(self.interval),
            timeout: crate::text::opt_text(self.timeout),
            deregister_critical_service_after: crate::text::opt_text(
                self.deregister_critical_service_after,
            ),
            check_id: crate::text::opt_text(self.check_id),
            ttl: crate::text::opt_text(self.ttl),
        }
    }
}

/// The body of a registration request. Absent fields are left out of it.
#[derive(Debug)]
pub struct WireRegistration {
    pub id: String,
    pub name: String,
    pub tags: Vec<String>,
    pub address: Option<String>,
    pub port: Option<i64>,
    pub tagged_addresses: Option<StringMap<WireServiceAddress>>,
    pub meta: Option<StringMap<String>>,
    pub checks: Option<Vec<WireCheck>>,
}

/// What a [`WireRegistration`] holds.
pub struct WireRegistrationView {
    pub id: Seq<char>,
    pub name: Seq<char>,
    pub tags: Seq<Seq<char>>,
    pub address: Option<Seq<char>>,
    pub port: Option<int>,
    pub tagged_addresses: Option<Map<Seq<char>, AddressView>>,
    pub meta: Option<Map<Seq<char>, Seq<char>>>,
    pub checks: Option<Seq<CheckView>>,
}

/// The addresses in a map of tagged addresses.
pub open spec fn address_views(m: Map<Seq<char>, WireServiceAddress>) -> Map<
    Seq<char>,
    AddressView,
> {
    m.map_values(|a: WireServiceAddress| a@)
}

/// The checks in a list.
pub open spec fn check_views(l: Seq<WireCheck>) -> Seq<CheckView> {
    Seq::new(l.len(), |i: int| l[i]@)
}

impl View for WireRegistration {
    type V = WireRegistrationView;

    open spec fn view(&self) -> WireRegistrationView {
        WireRegistrationView {
            id: self.id@,
            name: self.name@,
            tags: crate::text::texts(self.tags@),
            address: crate::text::opt_text(self.address),
            port: match self.port {
                Some(p) => Some(p as int),
                None => None,
            },
            tagged_addresses: match self.tagged_addresses {
                Some(m) => Some(address_views(m@)),
                None => None,
            },
            meta: match self.meta {
                Some(m) => Some(crate::json::map_texts(m@)),
                None => None,
            },
            checks: match self.checks {
                Some(l) => Some(check_views(l@)),
                None => None,
            },
        }
    }
}

/// A number of seconds as consul writes it.
pub open spec fn seconds(n: nat) -> Seq<char> {
    crate::text::decimal(n) + "s"@
}

fn seconds_text(n: u64) -> (s: String)
    ensures
        s@ == seconds(n as nat),
{
    let mut s: String = decimal_text(n);
    s.append("s");
    s
}

/// The endpoints as tagged addresses; of two with one scheme the later counts.
pub open spec fn tagged(endpoints: Seq<Seq<char>>) -> Map<Seq<char>, AddressView>
    decreases endpoints.len(),
{
    if endpoints.len() == 0 {
        Map::empty()
    } else {
        let parts = crate::registry::endpoint::endpoint_parts(endpoints.last())->0;
        tagged(endpoints.drop_last()).insert(
            parts.scheme,
            AddressView { address: endpoints.last(), port: parts.port },
        )
    }
}

/// The TCP check of one endpoint.
pub open spec fn tcp_check(options: ConsulOptions, endpoint: Seq<char>) -> CheckView {
    let parts = crate::registry::endpoint::endpoint_parts(endpoint)->0;
    CheckView {
        tcp: Some(crate::registry::endpoint::host_port_text(parts.host, parts.port)),
        interval: Some(seconds(options.healthcheck_interval_secs as nat)),
        timeout: Some("5s"@),
        deregister_critical_service_after: Some(
            seconds(options.deregister_critical_after_secs as nat),
        ),
        check_id: None,
        ttl: None,
    }
}

/// The TTL check of an instance.
pub open spec fn ttl_check(options: ConsulOptions, id: Seq<char>) -> CheckView {
    CheckView {
        tcp: None,
        interval: None,
        timeout: None,
        deregister_critical_service_after: Some(
            seconds(options.deregister_critical_after_secs as nat),
        ),
        check_id: Some("service:"@ + id),
        ttl: Some(seconds((options.healthcheck_interval_secs * 2) as nat)),
    }
}

/// The checks that are registered: a TCP check for each endpoint and the TTL
/// check, as far as the options ask for them.
pub open spec fn registered_checks(
    options: ConsulOptions,
    id: Seq<char>,
    endpoints: Seq<Seq<char>>,
) -> Seq<CheckView> {
    let tcp = if options.enable_health_check {
        Seq::new(endpoints.len(), |i: int| tcp_check(options, endpoints[i]))
    } else {
        Seq::empty()
    };
    if options.heartbeat {
        tcp.push(ttl_check(options, id))
    } else {
        tcp
    }
}

/// The registration request for an announcement.
pub open spec fn wire_registration(
    options: ConsulOptions,
    r: crate::registry::RegistrationView,
) -> WireRegistrationView {
    let endpoints = r.instance.endpoints;
    let first = crate::registry::endpoint::endpoint_parts(endpoints[0])->0;
    let checks = registered_checks(options, r.instance.id, endpoints);
    WireRegistrationView {
        id: r.instance.id,
        name: r.instance.name,
        tags: seq!["version="@ + r.instance.version],
        address: if endpoints.len() > 0 && first.host.len() > 0 {
            Some(first.host)
        } else {
            None
        },
        port: if endpoints.len() > 0 && first.port != 0 {
            Some(first.port)
        } else {
            None
        },
        tagged_addresses: if endpoints.len() > 0 {
            Some(tagged(endpoints))
        } else {
            None
        },
        meta: r.metadata,
        checks: if checks.len() > 0 {
            Some(checks)
        } else {
            None
        },
    }
}

/// A tagged address as JSON.
pub open spec fn address_text(a: AddressView) -> Seq<char> {
    crate::json::object_text(
        seq![
            ("Address"@, crate::json::json_quoted(a.address)),
            ("Port"@, crate::text::signed_decimal(a.port)),
        ],
    )
}

/// Tagged addresses as JSON, in the order of their schemes.
pub open spec fn addresses_text(m: Map<Seq<char>, AddressView>) -> Seq<char> {
    crate::json::object_text(
        crate::order::in_order(m.map_values(|a: AddressView| address_text(a))),
    )
}

/// The members of a check; what is absent is left out.
pub open spec fn check_members(c: CheckView) -> Seq<(Seq<char>, Seq<char>)> {
    crate::json::opt_member("TCP"@, crate::json::opt_quoted(c.tcp)) + crate::json::opt_member(
        "Interval"@,
        crate::json::opt_quoted(c.interval),
    ) + crate::json::opt_member("Timeout"@, crate::json::opt_quoted(c.timeout))
        + crate::json::opt_member(
        "DeregisterCriticalServiceAfter"@,
        crate::json::opt_quoted(c.deregister_critical_service_after),
    ) + crate::json::opt_member("CheckID"@, crate::json::opt_quoted(c.check_id))
        + crate::json::opt_member("TTL"@, crate::json::opt_quoted(c.ttl))
}

/// Checks as JSON.
pub open spec fn checks_text(l: Seq<CheckView>) -> Seq<char> {
    crate::json::list_text(
        Seq::new(l.len(), |i: int| crate::json::object_text(check_members(l[i]))),
    )
}

/// The members of a registration request; what is absent is left out.
pub open spec fn wire_members(w: WireRegistrationView) -> Seq<(Seq<char>, Seq<char>)> {
    seq![
        ("ID"@, crate::json::json_quoted(w.id)),
        ("Name"@, crate::json::json_quoted(w.name)),
        ("Tags"@, crate::json::json_texts(w.tags)),
    ] + crate::json::opt_member("Address"@, crate::json::opt_quoted(w.address))
        + crate::json::opt_member(
        "Port"@,
        match w.port {
            Some(p) => Some(crate::text::signed_decimal(p)),
            None => None,
        },
    ) + crate::json::opt_member(
        "TaggedAddresses"@,
        match w.tagged_addresses {
            Some(m) => Some(addresses_text(m)),
            None => None,
        },
    ) + crate::json::opt_member(
        "Meta"@,
        match w.meta {
            Some(m) => Some(crate::json::json_text_map(m)),
            None => None,
        },
    ) + crate::json::opt_member(
        "Checks"@,
        match w.checks {
            Some(l) => Some(checks_text(l)),
            None => None,
        },
    )
}

proof fn lemma_among_both<A>(a: Seq<A>, b: Seq<A>, x: A)
    ensures
        (a + b).contains(x) <==> a.contains(x) || b.contains(x),
{
    if a.contains(x) {
        let i = a.index_of(x);
        assert((a + b)[i] == x);
    }
    if b.contains(x) {
        let i = b.index_of(x);
        assert((a + b)[a.len() + i] == x);
    }
    if (a + b).contains(x) {
        let i = (a + b).index_of(x);
        if i < a.len() {
            assert(a[i] == x);
        } else {
            assert(b[i - a.len()] == x);
        }
    }
}

proof fn lemma_opt_member(name: Seq<char>, value: Option<Seq<char>>, x: (Seq<char>, Seq<char>))
    ensures
        crate::json::opt_member(name, value).contains(x) <==> value is Some && x == (
            name,
            value->0,
        ),
{
    if let Some(v) = value {
        assert(crate::json::opt_member(name, value)[0] == (name, v));
    }
}

/// A check is written with a member for each part that it has, under the part's
/// name, and with no other.
pub proof fn check_is_written_part_by_part(c: CheckView, x: (Seq<char>, Seq<char>))
    ensures
        check_members(c).contains(x) <==> {
            ||| c.tcp is Some && x == ("TCP"@, crate::json::json_quoted(c.tcp->0))
            ||| c.interval is Some && x == ("Interval"@, crate::json::json_quoted(c.interval->0))
            ||| c.timeout is Some && x == ("Timeout"@, crate::json::json_quoted(c.timeout->0))
            ||| c.deregister_critical_service_after is Some && x == (
                "DeregisterCriticalServiceAfter"@,
                crate::json::json_quoted(c.deregister_critical_service_after->0),
            )
            ||| c.check_id is Some && x == ("CheckID"@, crate::json::json_quoted(c.check_id->0))
            ||| c.ttl is Some && x == ("TTL"@, crate::json::json_quoted(c.ttl->0))
        },
{
    let m1 = crate::json::opt_member("TCP"@, crate::json::opt_quoted(c.tcp));
    let m2 = crate::json::opt_member("Interval"@, crate::json::opt_quoted(c.interval));
    let m3 = crate::json::opt_member("Timeout"@, crate::json::opt_quoted(c.timeout));
    let m4 = crate::json::opt_member(
        "DeregisterCriticalServiceAfter"@,
        crate::json::opt_quoted(c.deregister_critical_service_after),
    );
    let m5 = crate::json::opt_member("CheckID"@, crate::json::opt_quoted(c.check_id));
    let m6 = crate::json::opt_member("TTL"@, crate::json::opt_quoted(c.ttl));
    assert(check_members(c) == m1 + m2 + m3 + m4 + m5 + m6);
    lemma_among_both(m1 + m2 + m3 + m4 + m5, m6, x);
    lemma_among_both(m1 + m2 + m3 + m4, m5, x);
    lemma_among_both(m1 + m2 + m3, m4, x);
    lemma_among_both(m1 + m2, m3, x);
    lemma_among_both(m1, m2, x);
    lemma_opt_member("TCP"@, crate::json::opt_quoted(c.tcp), x);
    lemma_opt_member("Interval"@, crate::json::opt_quoted(c.interval), x);
    lemma_opt_member("Timeout"@, crate::json::opt_quoted(c.timeout), x);
    lemma_opt_member(
        "DeregisterCriticalServiceAfter"@,
        crate::json::opt_quoted(c.deregister_critical_service_after),
        x,
    );
    lemma_opt_member("CheckID"@, crate::json::opt_quoted(c.check_id), x);
    lemma_opt_member("TTL"@, crate::json::opt_quoted(c.ttl), x);
}

/// A request is written with a member for each part that it has, under the
/// part's name, and with no other.
pub proof fn request_is_written_part_by_part(w: WireRegistrationView, x: (Seq<char>, Seq<char>))
    ensures
        wire_members(w).contains(x) <==> {
            ||| x == ("ID"@, crate::json::json_quoted(w.id))
            ||| x == ("Name"@, crate::json::json_quoted(w.name))
            ||| x == ("Tags"@, crate::json::json_texts(w.tags))
            ||| w.address is Some && x == ("Address"@, crate::json::json_quoted(w.address->0))
            ||| w.port is Some && x == ("Port"@, crate::text::signed_decimal(w.port->0))
            ||| w.tagged_addresses is Some && x == (
                "TaggedAddresses"@,
                addresses_text(w.tagged_addresses->0),
            )
            ||| w.meta is Some && x == ("Meta"@, crate::json::json_text_map(w.meta->0))
            ||| w.checks is Some && x == ("Checks"@, checks_text(w.checks->0))
        },
{
    let port = match w.port {
        Some(p) => Some(crate::text::signed_decimal(p)),
        None => None,
    };
    let addresses = match w.tagged_addresses {
        Some(m) => Some(addresses_text(m)),
        None => None,
    };
    let meta = match w.meta {
        Some(m) => Some(crate::json::json_text_map(m)),
        None => None,
    };
    let checks = match w.checks {
        Some(l) => Some(checks_text(l)),
        None => None,
    };
    let m0 = seq![
        ("ID"@, crate::json::json_quoted(w.id)),
        ("Name"@, crate::json::json_quoted(w.name)),
        ("Tags"@, crate::json::json_texts(w.tags)),
    ];
    let m1 = crate::json::opt_member("Address"@, crate::json::opt_quoted(w.address));
    let m2 = crate::json::opt_member("Port"@, port);
    let m3 = crate::json::opt_member("TaggedAddresses"@, addresses);
    let m4 = crate::json::opt_member("Meta"@, meta);
    let m5 = crate::json::opt_member("Checks"@, checks);
    assert(wire_members(w) == m0 + m1 + m2 + m3 + m4 + m5);
    assert(m0.contains(x) <==> x == m0[0] || x == m0[1] || x == m0[2]);
    lemma_among_both(m0 + m1 + m2 + m3 + m4, m5, x);
    lemma_among_both(m0 + m1 + m2 + m3, m4, x);
    lemma_among_both(m0 + m1 + m2, m3, x);
    lemma_among_both(m0 + m1, m2, x);
    lemma_among_both(m0, m1, x);
    lemma_opt_member("Address"@, crate::json::opt_quoted(w.address), x);
    lemma_opt_member("Port"@, port, x);
    lemma_opt_member("TaggedAddresses"@, addresses, x);
    lemma_opt_member("Meta"@, meta, x);
    lemma_opt_member("Checks"@, checks, x);
}

impl WireServiceAddress {
    /// Writes a tagged address as JSON.
    pub fn body(&self) -> (s: String)
        ensures
            s@ == address_text(self@),
    {
        let mut members: Vec<(String, String)> = Vec::new();
        push_text(&mut members, "Address", self.address.as_str());
        push_member(&mut members, "Port", signed_decimal_text(self.port));
        assert(crate::json::pair_texts(members@) =~= seq![
            ("Address"@, crate::json::json_quoted(self@.address)),
            ("Port"@, crate::text::signed_decimal(self@.port)),
        ]);
        write_object(&members)
    }
}

fn write_addresses(m: &StringMap<WireServiceAddress>) -> (s: String)
    ensures
        s@ == addresses_text(address_views(m@)),
{
    let n: usize = m.len();
    let ghost keys = m.keys();
    let ghost all = address_views(m@).map_values(|a: AddressView| address_text(a));
    let mut texts: StringMap<String> = StringMap::new();
    let mut i: usize = 0;
    assert(keys.take(0) =~= Seq::<Seq<char>>::empty());
    while i < n
        invariant
            i <= n,
            n == keys.len(),
            keys == m.keys(),
            all == address_views(m@).map_values(|a: AddressView| address_text(a)),
            forall|k: Seq<char>| #[trigger]
                texts@.contains_key(k) <==> keys.take(i as int).contains(k),
            forall|k: Seq<char>| #[trigger]
                texts@.contains_key(k) ==> all.contains_key(k) && texts@[k]@ == all[k],
        decreases n - i,
    {
        let key = m.key_at(i).clone();
        let text = m.value_at(i).body();
        let ghost before = keys.take(i as int);
        texts.insert(key, text);
        i += 1;
        proof {
            let now = keys.take(i as int);
            assert(now =~= before.push(keys[i - 1]));
            assert forall|k: Seq<char>| #[trigger] now.contains(k) <==> before.contains(k) || k
                == keys[i - 1] by {
                if before.contains(k) {
                    let j = before.index_of(k);
                    assert(now[j] == k);
                }
                assert(now[i - 1] == keys[i - 1]);
            }
        }
    }
    proof {
        assert(keys.take(n as int) =~= keys);
        assert forall|k: Seq<char>| m@.contains_key(k) implies keys.contains(k) by {
            assert(m@.dom().contains(k));
            assert(keys.to_set().contains(k));
        }
        assert(crate::json::map_texts(texts@) =~= all);
    }
    write_object(&ordered(pairs_of(&texts)))
}

impl WireCheck {
    /// Writes a check as JSON.
    pub fn body(&self) -> (s: String)
        ensures
            s@ == crate::json::object_text(check_members(self@)),
    {
        let mut members: Vec<(String, String)> = Vec::new();
        assert(crate::json::pair_texts(members@) =~= Seq::empty());
        push_opt_text(&mut members, "TCP", &self.tcp);
        push_opt_text(&mut members, "Interval", &self.interval);
        push_opt_text(&mut members, "Timeout", &self.timeout);
        push_opt_text(
            &mut members,
            "DeregisterCriticalServiceAfter",
            &self.deregister_critical_service_after,
        );
        push_opt_text(&mut members, "CheckID", &self.check_id);
        push_opt_text(&mut members, "TTL", &self.ttl);
        assert(crate::json::pair_texts(members@) =~= check_members(self@));
        write_object(&members)
    }
}

fn write_checks(l: &Vec<WireCheck>) -> (s: String)
    ensures
        s@ == checks_text(check_views(l@)),
{
    let mut items: Vec<String> = Vec::new();
    let mut i: usize = 0;
    while i < l.len()
        invariant
            i <= l@.len(),
            items@.len() == i,
            forall|j: int|
                0 <= j < i ==> (#[trigger] items@[j])@ == crate::json::object_text(
                    check_members(l@[j]@),
                ),
        decreases l@.len() - i,
    {
        items.push(l[i].body());
        i += 1;
    }
    let ghost views = check_views(l@);
    assert(crate::text::texts(items@) =~= Seq::new(
        views.len(),
        |i: int| crate::json::object_text(check_members(views[i])),
    ));
    write_list(&items)
}

/// Writes a registration request as JSON.
pub fn registration_body(w: &WireRegistration) -> (s: String)
    ensures
        s@ == crate::json::object_text(wire_members(w@)),
{
    let mut members: Vec<(String, String)> = Vec::new();
    push_text(&mut members, "ID", w.id.as_str());
    push_text(&mut members, "Name", w.name.as_str());
    push_member(&mut members, "Tags", write_texts(&w.tags));
    assert(crate::json::pair_texts(members@) =~= seq![
        ("ID"@, crate::json::json_quoted(w@.id)),
        ("Name"@, crate::json::json_quoted(w@.name)),
        ("Tags"@, crate::json::json_texts(w@.tags)),
    ]);
    push_opt_text(&mut members, "Address", &w.address);
    let port: Option<String> = match w.port {
        Some(p) => Some(signed_decimal_text(p)),
        None => None,
    };
    push_opt_member(&mut members, "Port", port);
    let addresses: Option<String> = match &w.tagged_addresses {
        Some(m) => Some(write_addresses(m)),
        None => None,
    };
    push_opt_member(&mut members, "TaggedAddresses", addresses);
    let meta: Option<String> = match &w.meta {
        Some(m) => Some(write_text_map(pairs_of(m))),
        None => None,
    };
    push_opt_member(&mut members, "Meta", meta);
    let checks: Option<String> = match &w.checks {
        Some(l) => Some(write_checks(l)),
        None => None,
    };
    push_opt_member(&mut members, "Checks", checks);
    assert(crate::json::pair_texts(members@) =~= wire_members(w@));
    write_object(&members)
}

/// Builds the registration request for an announcement. An endpoint that is
/// no URL makes it fail.
#[verifier::loop_isolation(false)]
pub fn build_registration(options: &ConsulOptions, registration: &Registration) -> (r: Result<
    WireRegistration,
    RegistryError,
>)
    requires
        options.heartbeat ==> options.healthcheck_interval_secs * 2 <= u64::MAX,
    ensures
        match r {
            Ok(w) => crate::registry::endpoint::all_urls(registration@.instance.endpoints)
                && w@ == wire_registration(*options, registration@),
            Err(e) => !crate::registry::endpoint::all_urls(registration@.instance.endpoints)
                && e.reason() == "endpoint parse: "@ + crate::registry::endpoint::first_bad(
                registration@.instance.endpoints,
            ),
        },
{
    let endpoints = &registration.instance.endpoints;
    let ghost all = registration@.instance.endpoints;
    let mut addresses: StringMap<WireServiceAddress> = StringMap::new();
    let mut checks: Vec<WireCheck> = Vec::new();
    let mut address: Option<String> = None;
    let mut port: Option<i64> = None;
    let mut i: usize = 0;
    assert(all.take(0) =~= Seq::<Seq<char>>::empty());
    assert(address_views(addresses@) =~= tagged(all.take(0)));
    while i < endpoints.len()
        invariant
            i <= endpoints@.len(),
            forall|j: int|
                0 <= j < i ==> crate::registry::endpoint::endpoint_parts(
                    #[trigger] all[j],
                ) is Some,
            address_views(addresses@) == tagged(all.take(i as int)),
            checks@.len() == (if options.enable_health_check {
                i as int
            } else {
                0
            }),
            forall|j: int|
                0 <= j < checks@.len() ==> (#[trigger] checks@[j])@ == tcp_check(*options, all[j]),
            i == 0 ==> address is None && port is None,
            i > 0 ==> ({
                let first = crate::registry::endpoint::endpoint_parts(all[0])->0;
                &&& crate::text::opt_text(address) == (if first.host.len() > 0 {
                    Some(first.host)
                } else {
                    None
                })
                &&& port == (if first.port != 0 {
                    Some(first.port as i64)
                } else {
                    None
                })
                &&& i64::MIN <= first.port <= i64::MAX
            }),
        decreases endpoints@.len() - i,
    {
        let endpoint = &endpoints[i];
        assert(all[i as int] == endpoint@);
        let parts = match split_endpoint(endpoint.as_str()) {
            Some(parts) => parts,
            None => {
                proof {
                    crate::registry::endpoint::lemma_first_bad(all, i as int);
                    assert(crate::registry::endpoint::endpoint_parts(all[i as int]) is None);
                }
                return Err(RegistryError::Failed(cat("endpoint parse: ", endpoint.as_str())));
            },
        };
        let ghost before = addresses@;
        if options.enable_health_check {
            checks.push(
                WireCheck {
                    tcp: Some(host_port(parts.host.as_str(), parts.port)),
                    interval: Some(seconds_text(options.healthcheck_interval_secs)),
                    timeout: Some("5s".to_owned()),
                    deregister_critical_service_after: Some(
                        seconds_text(options.deregister_critical_after_secs),
                    ),
                    check_id: None,
                    ttl: None,
                },
            );
        }
        if i == 0 {
            if !parts.host.as_str().is_empty() {
                address = Some(parts.host.clone());
            }
            if parts.port != 0 {
                port = Some(parts.port);
            }
        }
        let value = WireServiceAddress { address: endpoint.clone(), port: parts.port };
        let ghost value_view = value@;
        addresses.insert(parts.scheme, value);
        i += 1;
        proof {
            let now = all.take(i as int);
            assert(now.drop_last() =~= all.take(i - 1));
            assert(now.last() == all[i - 1]);
            assert(address_views(addresses@) =~= address_views(before).insert(
                parts@.scheme,
                value_view,
            ));
        }
    }
    assert(all.take(i as int) =~= all);
    if options.heartbeat {
        checks.push(
            WireCheck {
                tcp: None,
                interval: None,
                timeout: None,
                deregister_critical_service_after: Some(
                    seconds_text(options.deregister_critical_after_secs),
                ),
                check_id: Some(cat("service:", registration.instance.id.as_str())),
                ttl: Some(seconds_text(options.healthcheck_interval_secs * 2)),
            },
        );
    }
    assert(check_views(checks@) =~= registered_checks(*options, registration@.instance.id, all));
    let mut tags: Vec<String> = Vec::new();
    tags.push(cat("version=", registration.instance.version.as_str()));
    assert(crate::text::texts(tags@) =~= seq!["version="@ + registration@.instance.version]);
    let tagged_addresses = if endpoints.len() > 0 {
        Some(addresses)
    } else {
        None
    };
    let meta = match &registration.metadata {
        Some(m) => Some(crate::json::copy_map(m)),
        None => None,
    };
    let checks = if checks.len() > 0 {
        Some(checks)
    } else {
        None
    };
    Ok(
        WireRegistration {
            id: registration.instance.id.clone(),
            name: registration.instance.name.clone(),
            tags,
            address,
            port,
            tagged_addresses,
            meta,
            checks,
        },
    )
}

/// The service half of a health-view entry, as far as it is read.
#[derive(Debug)]
pub struct WireService {
    pub id: String,
    pub service: String,
    pub tags: Option<Vec<String>>,
    pub address: Option<String>,
    pub port: Option<i64>,
    pub tagged_addresses: Option<StringMap<WireServiceAddress>>,
}

/// What a [`WireService`] holds; what is absent is empty.
pub struct ServiceView {
    pub id: Seq<char>,
    pub service: Seq<char>,
    pub tags: Seq<Seq<char>>,
    pub address: Seq<char>,
    pub port: int,
    pub schemes: Seq<Seq<char>>,
    pub tagged_addresses: Map<Seq<char>, AddressView>,
}

impl View for WireService {
    type V = ServiceView;

    open spec fn view(&self) -> ServiceView {
        ServiceView {
            id: self.id@,
            service: self.service@,
            tags: match self.tags {
                Some(l) => crate::text::texts(l@),
                None => Seq::empty(),
            },
            address: match self.address {
                Some(a) => a@,
                None => Seq::empty(),
            },
            port: match self.port {
                Some(p) => p as int,
                None => 0,
            },
            schemes: match self.tagged_addresses {
                Some(m) => m.keys(),
                None => Seq::empty(),
            },
            tagged_addresses: match self.tagged_addresses {
                Some(m) => address_views(m@),
                None => Map::empty(),
            },
        }
    }
}

/// What follows `version=` in the first tag that begins with it.
pub open spec fn tagged_version(tags: Seq<Seq<char>>) -> Seq<char>
    decreases tags.len(),
{
    if tags.len() == 0 {
        Seq::empty()
    } else if "version="@.is_prefix_of(tags[0]) {
        tags[0].skip("version="@.len() as int)
    } else {
        tagged_version(tags.skip(1))
    }
}

/// The schemes under which an agent keeps its own addresses.
pub open spec fn is_interface(scheme: Seq<char>) -> bool {
    scheme == "lan_ipv4"@ || scheme == "wan_ipv4"@ || scheme == "lan_ipv6"@ || scheme
        == "wan_ipv6"@
}

/// The addresses under the given schemes, the agent's own left out.
pub open spec fn service_addresses(
    schemes: Seq<Seq<char>>,
    addresses: Map<Seq<char>, AddressView>,
) -> Seq<Seq<char>>
    decreases schemes.len(),
{
    if schemes.len() == 0 {
        Seq::empty()
    } else {
        let rest = service_addresses(schemes.drop_last(), addresses);
        if is_interface(schemes.last()) {
            rest
        } else {
            rest.push(addresses[schemes.last()].address)
        }
    }
}

/// The instance that a health-view entry stands for: its tagged addresses are
/// its endpoints; where it has none, its address and port are.
pub open spec fn resolved(service: ServiceView) -> crate::registry::InstanceView {
    let addresses = service_addresses(service.schemes, service.tagged_addresses);
    crate::registry::InstanceView {
        id: service.id,
        name: service.service,
        version: tagged_version(service.tags),
        endpoints: if addresses.len() > 0 {
            addresses
        } else if service.address.len() > 0 && service.port != 0 {
            seq![
                crate::registry::endpoint::endpoint_text("http"@, service.address, service.port),
            ]
        } else {
            Seq::empty()
        },
    }
}

fn find_version(tags: &Vec<String>) -> (r: String)
    ensures
        r@ == tagged_version(crate::text::texts(tags@)),
{
    let ghost all = crate::text::texts(tags@);
    let mut i: usize = 0;
    assert(all.skip(0) =~= all);
    while i < tags.len()
        invariant
            i <= tags@.len(),
            all == crate::text::texts(tags@),
            tagged_version(all) == tagged_version(all.skip(i as int)),
        decreases tags@.len() - i,
    {
        assert(all.skip(i as int)[0] == tags@[i as int]@);
        assert(all.skip(i as int).skip(1) =~= all.skip(i + 1));
        if let Some(rest) = strip_prefix(tags[i].as_str(), "version=") {
            proof {
                let tag = tags@[i as int]@;
                assert(tag.subrange(0, "version="@.len() as int) =~= "version="@);
                assert(tag.skip("version="@.len() as int) =~= rest@);
            }
            return rest;
        }
        i += 1;
    }
    String::new()
}

fn interface_scheme(scheme: &str) -> (r: bool)
    ensures
        r == is_interface(scheme@),
{
    same(scheme, "lan_ipv4") || same(scheme, "wan_ipv4") || same(scheme, "lan_ipv6") || same(
        scheme,
        "wan_ipv6",
    )
}

/// Reads one health-view entry.
#[verifier::loop_isolation(false)]
pub fn resolve_service(service: &WireService) -> (r: Instance)
    ensures
        r@ == resolved(service@),
{
    let version = match &service.tags {
        Some(tags) => find_version(tags),
        None => String::new(),
    };
    let mut endpoints: Vec<String> = Vec::new();
    match &service.tagged_addresses {
        Some(addresses) => {
            let n: usize = addresses.len();
            let ghost schemes = addresses.keys();
            let mut i: usize = 0;
            assert(schemes.take(0) =~= Seq::<Seq<char>>::empty());
            assert(crate::text::texts(endpoints@) =~= Seq::<Seq<char>>::empty());
            while i < n
                invariant
                    i <= n == schemes.len(),
                    crate::text::texts(endpoints@) == service_addresses(
                        schemes.take(i as int),
                        address_views(addresses@),
                    ),
                decreases n - i,
            {
                let ghost before = endpoints@;
                let scheme = addresses.key_at(i);
                if !interface_scheme(scheme.as_str()) {
                    endpoints.push(addresses.value_at(i).address.clone());
                    assert(crate::text::texts(endpoints@) =~= crate::text::texts(before).push(
                        address_views(addresses@)[scheme@].address,
                    ));
                }
                i += 1;
                assert(schemes.take(i as int).drop_last() =~= schemes.take(i - 1));
            }
            assert(schemes.take(n as int) =~= schemes);
        },
        None => {
            assert(crate::text::texts(endpoints@) =~= Seq::<Seq<char>>::empty());
        },
    }
    if endpoints.len() == 0 {
        let port: i64 = match service.port {
            Some(port) => port,
            None => 0,
        };
        if let Some(address) = &service.address {
            if !address.as_str().is_empty() && port != 0 {
                endpoints.push(endpoint_url("http", address.as_str(), port));
            }
        }
    }
    let r = Instance {
        id: service.id.clone(),
        name: service.service.clone(),
        version,
        endpoints,
    };
    assert(r@.endpoints =~= resolved(service@).endpoints);
    r
}

/// Reads the entries of a health view.
pub fn resolve_entries(entries: &Vec<WireService>) -> (r: Vec<Instance>)
    ensures
        r@.len() == entries@.len(),
        forall|i: int| 0 <= i < r@.len() ==> (#[trigger] r@[i])@ == resolved(entries@[i]@),
{
    let mut r: Vec<Instance> = Vec::new();
    let mut i: usize = 0;
    while i < entries.len()
        invariant
            i <= entries@.len(),
            r@.len() == i,
            forall|j: int| 0 <= j < i ==> (#[trigger] r@[j])@ == resolved(entries@[j]@),
        decreases entries@.len() - i,
    {
        r.push(resolve_service(&entries[i]));
        i += 1;
    }
    r
}

/// No two endpoints have one scheme, and no scheme is one of the agent's own.
pub open spec fn plain_schemes(endpoints: Seq<Seq<char>>) -> bool {
    &&& forall|i: int, j: int|
        #![trigger endpoints[i], endpoints[j]]
        0 <= i < j < endpoints.len() ==> crate::registry::endpoint::endpoint_parts(
            endpoints[i],
        )->0.scheme != crate::registry::endpoint::endpoint_parts(endpoints[j])->0.scheme
    &&& forall|i: int|
        0 <= i < endpoints.len() ==> !is_interface(
            crate::registry::endpoint::endpoint_parts(#[trigger] endpoints[i])->0.scheme,
        )
}

/// The health-view entry that shows what a registration request put in, with
/// its tagged addresses listed in the order `schemes`.
pub open spec fn shown(w: WireRegistrationView, schemes: Seq<Seq<char>>) -> ServiceView {
    ServiceView {
        id: w.id,
        service: w.name,
        tags: w.tags,
        address: match w.address {
            Some(a) => a,
            None => Seq::empty(),
        },
        port: match w.port {
            Some(p) => p,
            None => 0,
        },
        schemes,
        tagged_addresses: match w.tagged_addresses {
            Some(m) => m,
            None => Map::empty(),
        },
    }
}

proof fn lemma_tagged(endpoints: Seq<Seq<char>>)
    requires
        plain_schemes(endpoints),
    ensures
        forall|i: int|
            #![trigger endpoints[i]]
            0 <= i < endpoints.len() ==> tagged(endpoints).contains_key(
                crate::registry::endpoint::endpoint_parts(endpoints[i])->0.scheme,
            ) && tagged(endpoints)[crate::registry::endpoint::endpoint_parts(
                endpoints[i],
            )->0.scheme].address == endpoints[i],
        forall|k: Seq<char>| #[trigger]
            tagged(endpoints).contains_key(k) ==> !is_interface(k) && endpoints.contains(
                tagged(endpoints)[k].address,
            ),
    decreases endpoints.len(),
{
    if endpoints.len() > 0 {
        let shorter = endpoints.drop_last();
        assert(plain_schemes(shorter)) by {
            assert forall|i: int, j: int|
                #![trigger shorter[i], shorter[j]]
                0 <= i < j < shorter.len() implies crate::registry::endpoint::endpoint_parts(
                shorter[i],
            )->0.scheme != crate::registry::endpoint::endpoint_parts(shorter[j])->0.scheme by {
                assert(endpoints[i] == shorter[i] && endpoints[j] == shorter[j]);
            }
        }
        lemma_tagged(shorter);
        assert forall|k: Seq<char>| #[trigger]
            tagged(endpoints).contains_key(k) implies !is_interface(k) && endpoints.contains(
            tagged(endpoints)[k].address,
        ) by {
            let last = endpoints[endpoints.len() - 1];
            if tagged(shorter).contains_key(k) {
                let a = tagged(shorter)[k].address;
                let i = shorter.index_of(a);
                assert(shorter.contains(a));
                assert(endpoints[i] == a);
            }
            assert(endpoints.contains(last));
        }
        assert forall|i: int|
            #![trigger endpoints[i]]
            0 <= i < endpoints.len() implies tagged(endpoints).contains_key(
            crate::registry::endpoint::endpoint_parts(endpoints[i])->0.scheme,
        ) && tagged(endpoints)[crate::registry::endpoint::endpoint_parts(
            endpoints[i],
        )->0.scheme].address == endpoints[i] by {
            if i < endpoints.len() - 1 {
                assert(shorter[i] == endpoints[i]);
                assert(endpoints[endpoints.len() - 1] == endpoints.last());
            }
        }
    }
}

proof fn lemma_addresses_set(schemes: Seq<Seq<char>>, addresses: Map<Seq<char>, AddressView>)
    requires
        forall|i: int| 0 <= i < schemes.len() ==> !is_interface(#[trigger] schemes[i]),
    ensures
        service_addresses(schemes, addresses).len() == schemes.len(),
        forall|i: int|
            0 <= i < schemes.len() ==> #[trigger] service_addresses(schemes, addresses)[i]
                == addresses[schemes[i]].address,
    decreases schemes.len(),
{
    if schemes.len() > 0 {
        lemma_addresses_set(schemes.drop_last(), addresses);
        assert forall|i: int| 0 <= i < schemes.len() implies #[trigger] service_addresses(
            schemes,
            addresses,
        )[i] == addresses[schemes[i]].address by {
            if i < schemes.len() - 1 {
                assert(schemes.drop_last()[i] == schemes[i]);
            }
        }
    }
}

/// What a registration announces is what a reader of the health view gets:
/// the same id, name and version, and the same endpoints in whatever order
/// the agent lists them. It holds where no two endpoints share a scheme and
/// none has a scheme that the agent keeps for itself.
pub proof fn registration_resolves_back(
    options: ConsulOptions,
    r: crate::registry::RegistrationView,
    schemes: Seq<Seq<char>>,
)
    requires
        crate::registry::endpoint::all_urls(r.instance.endpoints),
        plain_schemes(r.instance.endpoints),
        schemes.no_duplicates(),
        schemes.to_set() == tagged(r.instance.endpoints).dom(),
    ensures
        ({
            let back = resolved(shown(wire_registration(options, r), schemes));
            &&& back.id == r.instance.id
            &&& back.name == r.instance.name
            &&& back.version == r.instance.version
            &&& back.endpoints.to_set() == r.instance.endpoints.to_set()
        }),
{
    let endpoints = r.instance.endpoints;
    let w = wire_registration(options, r);
    let entry = shown(w, schemes);
    let back = resolved(entry);
    let tag = "version="@ + r.instance.version;
    assert(tag.subrange(0, "version="@.len() as int) =~= "version="@);
    assert(tag.skip("version="@.len() as int) =~= r.instance.version);
    assert(w.tags[0] == tag);
    lemma_tagged(endpoints);
    assert forall|i: int| 0 <= i < schemes.len() implies !is_interface(#[trigger] schemes[i]) by {
        assert(schemes.to_set().contains(schemes[i]));
    }
    let addresses = service_addresses(schemes, entry.tagged_addresses);
    lemma_addresses_set(schemes, entry.tagged_addresses);
    if endpoints.len() > 0 {
        let s0 = crate::registry::endpoint::endpoint_parts(endpoints[0])->0.scheme;
        assert(tagged(endpoints).contains_key(s0));
        assert(schemes.to_set().contains(s0));
        assert(schemes.len() > 0);
        assert forall|e: Seq<char>| #[trigger]
            addresses.to_set().contains(e) == endpoints.to_set().contains(e) by {
            if addresses.contains(e) {
                let i = addresses.index_of(e);
                assert(addresses[i] == entry.tagged_addresses[schemes[i]].address);
                assert(schemes.to_set().contains(schemes[i]));
            }
            if endpoints.contains(e) {
                let j = endpoints.index_of(e);
                assert(endpoints[j] == e);
                let s = crate::registry::endpoint::endpoint_parts(endpoints[j])->0.scheme;
                assert(schemes.to_set().contains(s));
                let i = schemes.index_of(s);
                assert(addresses[i] == e);
            }
        }
        assert(addresses.to_set() =~= endpoints.to_set());
    } else {
        assert(schemes.len() == 0) by {
            if schemes.len() > 0 {
                assert(schemes.to_set().contains(schemes[0]));
            }
        }
        assert(back.endpoints =~= endpoints);
    }
}

/// Of the endpoints with one scheme the last is the tagged address, with its
/// own port; there is a tagged address for each scheme that an endpoint has,
/// and for no other.
pub proof fn last_endpoint_of_a_scheme_is_tagged(endpoints: Seq<Seq<char>>, scheme: Seq<char>)
    ensures
        forall|k: int|
            #![trigger endpoints[k]]
            0 <= k < endpoints.len() && crate::registry::endpoint::endpoint_parts(
                endpoints[k],
            )->0.scheme == scheme && (forall|j: int|
                k < j < endpoints.len() ==> crate::registry::endpoint::endpoint_parts(
                    #[trigger] endpoints[j],
                )->0.scheme != scheme) ==> tagged(endpoints).contains_key(scheme)
                && tagged(endpoints)[scheme].address == endpoints[k]
                && tagged(endpoints)[scheme].port == crate::registry::endpoint::endpoint_parts(
                endpoints[k],
            )->0.port,
        (forall|j: int|
            0 <= j < endpoints.len() ==> crate::registry::endpoint::endpoint_parts(
                #[trigger] endpoints[j],
            )->0.scheme != scheme) ==> !tagged(endpoints).contains_key(scheme),
    decreases endpoints.len(),
{
    if endpoints.len() > 0 {
        let head = endpoints.drop_last();
        let n = endpoints.len() - 1;
        last_endpoint_of_a_scheme_is_tagged(head, scheme);
        assert(endpoints[n] == endpoints.last());
        assert forall|k: int|
            #![trigger endpoints[k]]
            0 <= k < endpoints.len() && crate::registry::endpoint::endpoint_parts(
                endpoints[k],
            )->0.scheme == scheme && (forall|j: int|
                k < j < endpoints.len() ==> crate::registry::endpoint::endpoint_parts(
                    #[trigger] endpoints[j],
                )->0.scheme != scheme) implies tagged(endpoints).contains_key(scheme)
            && tagged(endpoints)[scheme].address == endpoints[k] && tagged(endpoints)[scheme].port
            == crate::registry::endpoint::endpoint_parts(endpoints[k])->0.port by {
            if k < n {
                assert(crate::registry::endpoint::endpoint_parts(endpoints[n])->0.scheme
                    != scheme);
                assert forall|j: int|
                    k < j < head.len() implies crate::registry::endpoint::endpoint_parts(
                    #[trigger] head[j],
                )->0.scheme != scheme by {
                    assert(head[j] == endpoints[j]);
                }
                assert(head[k] == endpoints[k]);
            }
        }
        if forall|j: int|
            0 <= j < endpoints.len() ==> crate::registry::endpoint::endpoint_parts(
                #[trigger] endpoints[j],
            )->0.scheme != scheme {
            assert forall|j: int|
                0 <= j < head.len() implies crate::registry::endpoint::endpoint_parts(
                #[trigger] head[j],
            )->0.scheme != scheme by {
                assert(head[j] == endpoints[j]);
            }
        }
    }
}

/// Every tagged address that is not one of the agent's four own is an endpoint,
/// once and in the order of the listing.
pub proof fn each_service_address_is_read_once(
    schemes: Seq<Seq<char>>,
    addresses: Map<Seq<char>, AddressView>,
)
    ensures
        crate::listing::picks(
            service_addresses(schemes, addresses),
            schemes,
            |s: Seq<char>|
                s != "lan_ipv4"@ && s != "wan_ipv4"@ && s != "lan_ipv6"@ && s != "wan_ipv6"@,
            |s: Seq<char>| addresses[s].address,
        ),
    decreases schemes.len(),
{
    let own = |s: Seq<char>|
        s != "lan_ipv4"@ && s != "wan_ipv4"@ && s != "lan_ipv6"@ && s != "wan_ipv6"@;
    let address = |s: Seq<char>| addresses[s].address;
    if schemes.len() == 0 {
        crate::listing::nothing_is_picked(
            service_addresses(schemes, addresses),
            schemes,
            own,
            address,
        );
    } else {
        let head = schemes.drop_last();
        each_service_address_is_read_once(head, addresses);
        crate::listing::picking_one_more(
            service_addresses(head, addresses),
            schemes,
            own,
            address,
        );
    }
}

/// The version is what follows `version=` in the first tag that begins so,
/// whatever the tags before and after it say; without such a tag it is empty.
pub proof fn first_version_tag_counts(
    before: Seq<Seq<char>>,
    version: Seq<char>,
    after: Seq<Seq<char>>,
)
    requires
        forall|i: int| 0 <= i < before.len() ==> !"version="@.is_prefix_of(#[trigger] before[i]),
    ensures
        tagged_version(before + seq!["version="@ + version] + after) == version,
        tagged_version(before).len() == 0,
    decreases before.len(),
{
    let tags = before + seq!["version="@ + version] + after;
    if before.len() == 0 {
        let tag = "version="@ + version;
        assert(tags[0] == tag);
        assert(tag.subrange(0, "version="@.len() as int) =~= "version="@);
        assert(tag.skip("version="@.len() as int) =~= version);
    } else {
        let rest = before.skip(1);
        assert(tags[0] == before[0]);
        assert(!"version="@.is_prefix_of(before[0]));
        assert forall|i: int| 0 <= i < rest.len() implies !"version="@.is_prefix_of(
            #[trigger] rest[i],
        ) by {
            assert(rest[i] == before[i + 1]);
        }
        first_version_tag_counts(rest, version, after);
        assert(tags.skip(1) =~= rest + seq!["version="@ + version] + after);
    }
}

/// An entry keeps its id and its name. Its address and port are its endpoint
/// only where none of its tagged addresses is its own, and only where both are
/// given.
pub proof fn plain_address_is_the_last_resort(service: ServiceView)
    ensures
        resolved(service).id == service.id,
        resolved(service).name == service.service,
        (exists|i: int|
            0 <= i < service.schemes.len() && !is_interface(#[trigger] service.schemes[i]))
            ==> resolved(service).endpoints == service_addresses(
            service.schemes,
            service.tagged_addresses,
        ) && resolved(service).endpoints.len() > 0,
        (forall|i: int|
            0 <= i < service.schemes.len() ==> is_interface(#[trigger] service.schemes[i])) ==> (
        if service.address.len() > 0 && service.port != 0 {
            resolved(service).endpoints == seq![
                crate::registry::endpoint::endpoint_text("http"@, service.address, service.port),
            ]
        } else {
            resolved(service).endpoints.len() == 0
        }),
{
    each_service_address_is_read_once(service.schemes, service.tagged_addresses);
    lemma_no_own_address(service.schemes, service.tagged_addresses);
    let own = |s: Seq<char>|
        s != "lan_ipv4"@ && s != "wan_ipv4"@ && s != "lan_ipv6"@ && s != "wan_ipv6"@;
    if exists|i: int|
        0 <= i < service.schemes.len() && !is_interface(#[trigger] service.schemes[i]) {
        let i = choose|i: int|
            0 <= i < service.schemes.len() && !is_interface(#[trigger] service.schemes[i]);
        assert(own(service.schemes[i]));
    }
}

proof fn lemma_no_own_address(schemes: Seq<Seq<char>>, addresses: Map<Seq<char>, AddressView>)
    ensures
        (forall|i: int| 0 <= i < schemes.len() ==> is_interface(#[trigger] schemes[i]))
            ==> service_addresses(schemes, addresses).len() == 0,
    decreases schemes.len(),
{
    if schemes.len() > 0 {
        let head = schemes.drop_last();
        lemma_no_own_address(head, addresses);
        if forall|i: int| 0 <= i < schemes.len() ==> is_interface(#[trigger] schemes[i]) {
            assert forall|i: int| 0 <= i < head.len() implies is_interface(#[trigger] head[i]) by {
                assert(head[i] == schemes[i]);
            }
            assert(is_interface(schemes[schemes.len() - 1]));
        }
    }
}

/// Each endpoint is checked at its own host and port where checks are asked
/// for, and the heartbeat's check comes last: it outlives one missed heartbeat,
/// being good for twice the interval. Without either there is no check.
pub proof fn each_endpoint_is_checked(
    options: ConsulOptions,
    r: crate::registry::RegistrationView,
)
    ensures
        ({
            let endpoints = r.instance.endpoints;
            let checks = registered_checks(options, r.instance.id, endpoints);
            let n: int = if options.enable_health_check {
                endpoints.len() as int
            } else {
                0
            };
            let gone = Some(
                crate::text::decimal(options.deregister_critical_after_secs as nat) + "s"@,
            );
            &&& checks.len() == (if options.heartbeat {
                n + 1
            } else {
                n
            })
            &&& forall|i: int|
                #![trigger checks[i]]
                0 <= i < n ==> {
                    let at = crate::registry::endpoint::endpoint_parts(endpoints[i])->0;
                    &&& checks[i].tcp == Some(
                        crate::registry::endpoint::host_port_text(at.host, at.port),
                    )
                    &&& checks[i].interval == Some(
                        crate::text::decimal(options.healthcheck_interval_secs as nat) + "s"@,
                    )
                    &&& checks[i].timeout == Some("5s"@)
                    &&& checks[i].deregister_critical_service_after == gone
                    &&& checks[i].check_id is None
                    &&& checks[i].ttl is None
                }
            &&& options.heartbeat ==> {
                &&& checks[n].tcp is None
                &&& checks[n].interval is None
                &&& checks[n].timeout is None
                &&& checks[n].deregister_critical_service_after == gone
                &&& checks[n].check_id == Some("service:"@ + r.instance.id)
                &&& checks[n].ttl == Some(
                    crate::text::decimal(
                        (options.healthcheck_interval_secs
                            + options.healthcheck_interval_secs) as nat,
                    ) + "s"@,
                )
            }
            &&& wire_registration(options, r).checks == (if checks.len() > 0 {
                Some(checks)
            } else {
                None
            })
        }),
{
}

/// A request carries the announcement: its id, name, metadata and version tag,
/// and the host and port of its first endpoint as far as that has them. One
/// without endpoints has no address of any kind.
pub proof fn request_carries_the_announcement(
    options: ConsulOptions,
    r: crate::registry::RegistrationView,
)
    ensures
        ({
            let w = wire_registration(options, r);
            let endpoints = r.instance.endpoints;
            &&& w.id == r.instance.id
            &&& w.name == r.instance.name
            &&& w.meta == r.metadata
            &&& w.tags.len() == 1
            &&& tagged_version(w.tags) == r.instance.version
            &&& endpoints.len() == 0 ==> w.address is None && w.port is None && w.tagged_addresses
                is None
            &&& endpoints.len() > 0 ==> {
                let first = crate::registry::endpoint::endpoint_parts(endpoints[0])->0;
                &&& w.tagged_addresses is Some
                &&& first.host.len() > 0 ==> w.address == Some(first.host)
                &&& first.host.len() == 0 ==> w.address is None
                &&& first.port != 0 ==> w.port == Some(first.port)
                &&& first.port == 0 ==> w.port is None
            }
        }),
{
    first_version_tag_counts(Seq::empty(), r.instance.version, Seq::empty());
    assert(wire_registration(options, r).tags =~= Seq::<Seq<char>>::empty() + seq![
        "version="@ + r.instance.version,
    ] + Seq::<Seq<char>>::empty());
}

/// The address of the registration endpoint.
pub fn register_url(base: &str) -> (s: String)
    ensures
        s@ == base@ + "/v1/agent/service/register"@,
{
    cat(base, "/v1/agent/service/register")
}

/// The address that takes the service `id` off the agent.
pub fn deregister_url(base: &str, id: &str) -> (s: String)
    ensures
        s@ == base@ + "/v1/agent/service/deregister/"@ + id@,
{
    crate::text::cat3(base, "/v1/agent/service/deregister/", id)
}

/// The address that a heartbeat goes to.
pub fn update_url(base: &str, check_id: &str) -> (s: String)
    ensures
        s@ == base@ + "/v1/agent/check/update/"@ + check_id@,
{
    crate::text::cat3(base, "/v1/agent/check/update/", check_id)
}

/// The query of a health view: the current state, or what comes after `index`.
pub open spec fn health_query(index: Option<u64>) -> Seq<char> {
    match index {
        Some(n) => "?index="@ + crate::text::decimal(n as nat) + "&passing=1&wait="@
            + BLOCKING_WAIT@,
        None => "?passing=1&wait="@ + BLOCKING_WAIT@,
    }
}

/// Asking on from an index asks for the same as asking for the current state,
/// with the index before it.
pub proof fn index_is_asked_first(index: u64)
    ensures
        health_query(Some(index)) == "?index="@ + crate::text::decimal(index as nat) + "&"@
            + health_query(None).skip(1),
        health_query(None) == "?passing=1&wait="@ + BLOCKING_WAIT@,
{
    reveal_strlit("?passing=1&wait=");
    reveal_strlit("&passing=1&wait=");
    reveal_strlit("&");
    assert("&passing=1&wait="@ =~= "&"@ + "?passing=1&wait="@.skip(1));
    assert(health_query(Some(index)) =~= "?index="@ + crate::text::decimal(index as nat) + "&"@
        + health_query(None).skip(1));
}

/// The address of a service's health view.
pub fn health_url(base: &str, service_name: &str, index: Option<u64>) -> (s: String)
    ensures
        s@ == base@ + "/v1/health/service/"@ + service_name@ + health_query(index),
{
    let mut query: String = String::new();
    match index {
        Some(n) => {
            query.append("?index=");
            query.append(decimal_text(n).as_str());
            query.append("&passing=1&wait=");
            query.append(BLOCKING_WAIT);
            assert(query@ =~= health_query(index));
        },
        None => {
            query.append("?passing=1&wait=");
            query.append(BLOCKING_WAIT);
            assert(query@ =~= health_query(index));
        },
    }
    let mut s: String = crate::text::cat3(base, "/v1/health/service/", service_name);
    s.append(query.as_str());
    s
}

/// The index that a response carries: 0 where the header is absent or holds
/// no number.
pub fn response_index(header: &Option<String>) -> (r: u64)
    ensures
        r == match header {
            Some(h) => match crate::text::parsed_u64(h@) {
                Some(n) => n,
                None => 0,
            },
            None => 0,
        },
{
    match header {
        Some(h) => match parse_u64(h.as_str()) {
            Some(n) => n,
            None => 0,
        },
        None => 0,
    }
}

/// How the agent answered a health query.
pub enum HealthReply {
    /// The request did not get through, or its body did not.
    Lost(String),
    /// The agent answered with a status other than success.
    Refused(String),
    /// The body could not be read as a list of entries.
    Garbled(String),
    /// The entries, and the index header as it came.
    View(Vec<WireService>, Option<String>),
}

/// What the answer to a health query on `service_name` gives: the instances
/// and the index to ask on from.
pub fn settle_health(service_name: &str, reply: HealthReply) -> (r: Result<
    (Vec<Instance>, u64),
    RegistryError,
>)
    ensures
        ({
            let context = "consul health "@ + service_name@;
            match reply {
                HealthReply::Lost(e) => crate::registry::failed(r, context + ": "@ + e@),
                HealthReply::Refused(status) => crate::registry::failed(
                    r,
                    context + ": HTTP "@ + status@,
                ),
                HealthReply::Garbled(e) => crate::registry::failed(
                    r,
                    context + ": parse: "@ + e@,
                ),
                HealthReply::View(entries, header) => {
                    &&& r matches Ok((instances, index))
                    &&& crate::registry::instance_views(instances@) == Seq::new(
                        entries@.len(),
                        |i: int| resolved(entries@[i]@),
                    )
                    &&& index == match header {
                        Some(h) => match crate::text::parsed_u64(h@) {
                            Some(n) => n,
                            None => 0,
                        },
                        None => 0,
                    }
                },
            }
        }),
{
    let context = cat("consul health ", service_name);
    match reply {
        HealthReply::Lost(e) => Err(
            RegistryError::Failed(crate::text::cat3(context.as_str(), ": ", e.as_str())),
        ),
        HealthReply::Refused(status) => Err(
            RegistryError::Failed(
                crate::text::cat3(context.as_str(), ": HTTP ", status.as_str()),
            ),
        ),
        HealthReply::Garbled(e) => Err(
            RegistryError::Failed(crate::text::cat3(context.as_str(), ": parse: ", e.as_str())),
        ),
        HealthReply::View(entries, header) => {
            let instances = resolve_entries(&entries);
            assert(crate::registry::instance_views(instances@) =~= Seq::new(
                entries@.len(),
                |i: int| resolved(entries@[i]@),
            ));
            let index: u64 = response_index(&header);
            Ok((instances, index))
        },
    }
}

/// The state of a consul registry: where the agent is, what has been
/// broadcast of each watched service, and the heartbeat task of each
/// registration. `T` is whatever stands for a running task.
pub struct ConsulRegistry<T> {
    pub base: String,
    pub options: ConsulOptions,
    /// The latest snapshot of each watched service.
    pub sets: Snapshots,
    /// Heartbeat tasks by `{name}/{id}`.
    pub tasks: StringMap<T>,
}

/// What a registration's heartbeat needs to know.
#[derive(Debug)]
pub struct HeartbeatPlan {
    /// The check to keep passing.
    pub check_id: String,
    /// How long to wait between heartbeats.
    pub interval_secs: u64,
}

/// The key of a registration's heartbeat task.
pub fn task_key(registration: &Registration) -> (s: String)
    ensures
        s@ == registration@.instance.name + "/"@ + registration@.instance.id,
{
    crate::text::cat3(
        registration.instance.name.as_str(),
        "/",
        registration.instance.id.as_str(),
    )
}

impl<T> ConsulRegistry<T> {
    /// A registry on the agent at `addr`, with the default options.
    pub fn connect(addr: &str) -> (r: Result<ConsulRegistry<T>, RegistryError>)
        ensures
            r matches Ok(registry) && registry.base@ == crate::text::without_trailing_slashes(
                addr@,
            ) && registry.options == (ConsulOptions {
                enable_health_check: true,
                heartbeat: true,
                healthcheck_interval_secs: 10,
                deregister_critical_after_secs: 600,
                timeout: 10_000_000_000,
            }) && registry.sets@ == Map::<
                Seq<char>,
                Seq<crate::registry::InstanceView>,
            >::empty() && registry.tasks@
                == Map::<Seq<char>, T>::empty(),
    {
        Self::connect_with(addr, ConsulOptions::default())
    }

    /// A registry on the agent at `addr`.
    pub fn connect_with(addr: &str, options: ConsulOptions) -> (r: Result<
        ConsulRegistry<T>,
        RegistryError,
    >)
        ensures
            r matches Ok(registry) && registry.base@ == crate::text::without_trailing_slashes(
                addr@,
            ) && registry.options == options && registry.sets@ == Map::<
                Seq<char>,
                Seq<crate::registry::InstanceView>,
            >::empty() && registry.tasks@ == Map::<Seq<char>, T>::empty(),
    {
        Ok(
            ConsulRegistry {
                base: trim_end_slashes(addr),
                options,
                sets: Snapshots::new(),
                tasks: StringMap::new(),
            },
        )
    }

    /// The heartbeat that a registration which the agent has accepted needs.
    pub fn heartbeat_plan(&self, registration: &Registration) -> (r: Option<HeartbeatPlan>)
        ensures
            match r {
                Some(plan) => self.options.heartbeat && plan.check_id@ == "service:"@
                    + registration@.instance.id && plan.interval_secs
                    == self.options.healthcheck_interval_secs,
                None => !self.options.heartbeat,
            },
    {
        if self.options.heartbeat {
            Some(
                HeartbeatPlan {
                    check_id: cat("service:", registration.instance.id.as_str()),
                    interval_secs: self.options.healthcheck_interval_secs,
                },
            )
        } else {
            None
        }
    }

    /// Remembers the heartbeat task of a registration. An earlier one is
    /// handed back, to be stopped.
    pub fn keep_task(&mut self, registration: &Registration, task: T) -> (r: Option<T>)
        ensures
            ({
                let key = registration@.instance.name + "/"@ + registration@.instance.id;
                &&& final(self).tasks@ == old(self).tasks@.insert(key, task)
                &&& r == (if old(self).tasks@.contains_key(key) {
                    Some(old(self).tasks@[key])
                } else {
                    None
                })
            }),
            final(self).base == old(self).base,
            final(self).options == old(self).options,
            final(self).sets == old(self).sets,
    {
        self.tasks.insert(task_key(registration), task)
    }

    /// Gives a registration's heartbeat task up, for it to be stopped.
    pub fn drop_task(&mut self, registration: &Registration) -> (r: Option<T>)
        ensures
            ({
                let key = registration@.instance.name + "/"@ + registration@.instance.id;
                &&& final(self).tasks@ == old(self).tasks@.remove(key)
                &&& match r {
                    Some(task) => old(self).tasks@.contains_key(key)
                        && task == old(self).tasks@[key],
                    None => !old(self).tasks@.contains_key(key),
                }
            }),
            final(self).base == old(self).base,
            final(self).options == old(self).options,
            final(self).sets == old(self).sets,
    {
        self.tasks.remove(task_key(registration).as_str())
    }

    /// The broadcast snapshot of a watched service, where one with instances
    /// has been broadcast.
    pub fn cached(&self, service_name: &str) -> (r: Option<Vec<Instance>>)
        ensures
            match r {
                Some(l) => l@.len() > 0 && self.sets@.contains_key(service_name@)
                    && crate::registry::instance_views(l@) == self.sets@[service_name@],
                None => self.sets@.contains_key(service_name@) ==> self.sets@[service_name@].len()
                    == 0,
            },
    {
        match self.sets.get(service_name) {
            Some(l) => {
                assert(l@.len() == crate::registry::instance_views(l@).len());
                if l.len() > 0 {
                    Some(l)
                } else {
                    None
                }
            },
            None => None,
        }
    }

    /// Takes what resolving a freshly watched service gave: a non-empty list
    /// is broadcast, an empty one leaves the snapshot as it is.
    pub fn publish(&mut self, service_name: &str, instances: Vec<Instance>)
        ensures
            final(self).sets@ == if instances@.len() > 0 {
                old(self).sets@.insert(
                    service_name@,
                    crate::registry::instance_views(instances@),
                )
            } else {
                old(self).sets@
            },
            final(self).base == old(self).base,
            final(self).options == old(self).options,
            final(self).tasks == old(self).tasks,
    {
        if instances.len() > 0 {
            self.sets.publish(service_name, instances);
        }
    }

    /// One turn of the poll of a watched service that last saw `index`. Only
    /// a changed index with instances behind it is broadcast; a failed query
    /// changes nothing and asks for a further second's pause. Hands back the
    /// index to go on with, the pause in seconds, and whether there was a
    /// broadcast.
    pub fn poll(
        &mut self,
        service_name: &str,
        index: u64,
        fetched: Result<(Vec<Instance>, u64), RegistryError>,
    ) -> (r: (u64, u64, bool))
        ensures
            match fetched {
                Ok((instances, next)) => {
                    let news = instances@.len() > 0 && next != index;
                    &&& r == (next, 1u64, news)
                    &&& final(self).sets@ == if news {
                        old(self).sets@.insert(
                            service_name@,
                            crate::registry::instance_views(instances@),
                        )
                    } else {
                        old(self).sets@
                    }
                },
                Err(_) => r == (index, 2u64, false) && final(self).sets@ == old(self).sets@,
            },
            old(self).sets@.contains_key(service_name@) && old(self).sets@[service_name@].len() > 0
                ==> final(self).sets@.contains_key(service_name@)
                && final(self).sets@[service_name@].len() > 0,
            final(self).base == old(self).base,
            final(self).options == old(self).options,
            final(self).tasks == old(self).tasks,
    {
        match fetched {
            Ok((instances, next)) => {
                let news: bool = instances.len() > 0 && next != index;
                if news {
                    self.publish(service_name, instances);
                }
                (next, 1, news)
            },
            Err(_) => (index, 2, false),
        }
    }
}

/// What a one-shot lookup gives back: an empty view means that the service is
/// not there.
pub fn found(service_name: &str, instances: Vec<Instance>) -> (r: Result<
    Vec<Instance>,
    RegistryError,
>)
    ensures
        if instances@.len() == 0 {
            crate::registry::failed(
                r,
                "service "@ + service_name@ + " not found in registry"@,
            )
        } else {
            r == Ok::<Vec<Instance>, RegistryError>(instances)
        },
{
    if instances.len() == 0 {
        Err(
            RegistryError::Failed(
                crate::text::cat3("service ", service_name, " not found in registry"),
            ),
        )
    } else {
        Ok(instances)
    }
}

/// Where a heartbeat stands: what it has asked for last.
#[derive(Debug, Clone, Copy, PartialEq, Eq, Structural)]
pub enum HeartbeatPhase {
    /// Waiting before the first pass.
    WarmingUp,
    /// The first pass is out.
    FirstPass,
    /// Waiting for the next pass.
    Waiting,
    /// A pass is out.
    Passing,
    /// Waiting before the service is registered again.
    BackingOff,
    /// The registration is out again.
    Registering,
}

/// What a heartbeat asks to be done next.
#[derive(Debug, Clone, Copy, PartialEq, Eq, Structural)]
pub enum HeartbeatAction {
    /// Wait so many seconds.
    Sleep(u64),
    /// Mark the check as passing.
    Pass,
    /// Register the service again.
    Register,
}

/// What is done first: a wait of one second.
pub fn heartbeat_start() -> (r: (HeartbeatPhase, HeartbeatAction))
    ensures
        r == (HeartbeatPhase::WarmingUp, HeartbeatAction::Sleep(1)),
{
    (HeartbeatPhase::WarmingUp, HeartbeatAction::Sleep(1))
}

/// What follows when what was asked for is done: `done` tells whether it
/// succeeded, and `nanos` is the sub-second part of the clock, from which the
/// backoff is drawn.
pub open spec fn heartbeat_next(
    phase: HeartbeatPhase,
    done: bool,
    interval_secs: u64,
    nanos: u32,
) -> (HeartbeatPhase, HeartbeatAction) {
    match phase {
        HeartbeatPhase::WarmingUp => (HeartbeatPhase::FirstPass, HeartbeatAction::Pass),
        HeartbeatPhase::FirstPass => (
            HeartbeatPhase::Waiting,
            HeartbeatAction::Sleep(interval_secs),
        ),
        HeartbeatPhase::Waiting => (HeartbeatPhase::Passing, HeartbeatAction::Pass),
        HeartbeatPhase::Passing => if done {
            (HeartbeatPhase::Waiting, HeartbeatAction::Sleep(interval_secs))
        } else {
            (HeartbeatPhase::BackingOff, HeartbeatAction::Sleep((nanos % 5) as u64))
        },
        HeartbeatPhase::BackingOff => (HeartbeatPhase::Registering, HeartbeatAction::Register),
        HeartbeatPhase::Registering => (
            HeartbeatPhase::Waiting,
            HeartbeatAction::Sleep(interval_secs),
        ),
    }
}

/// One step of a heartbeat.
pub fn heartbeat_step(phase: HeartbeatPhase, done: bool, interval_secs: u64, nanos: u32) -> (r: (
    HeartbeatPhase,
    HeartbeatAction,
))
    ensures
        r == heartbeat_next(phase, done, interval_secs, nanos),
{
    match phase {
        HeartbeatPhase::WarmingUp => (HeartbeatPhase::FirstPass, HeartbeatAction::Pass),
        HeartbeatPhase::Passing => {
            if done {
                (HeartbeatPhase::Waiting, HeartbeatAction::Sleep(interval_secs))
            } else {
                let backoff: u64 = (nanos % 5) as u64;
                (HeartbeatPhase::BackingOff, HeartbeatAction::Sleep(backoff))
            }
        },
        HeartbeatPhase::Waiting => (HeartbeatPhase::Passing, HeartbeatAction::Pass),
        HeartbeatPhase::BackingOff => (HeartbeatPhase::Registering, HeartbeatAction::Register),
        _ => (HeartbeatPhase::Waiting, HeartbeatAction::Sleep(interval_secs)),
    }
}

/// A pass that fails leads, after a wait of less than five seconds, to the
/// service being registered again and then to the next pass; the first pass
/// may fail without that.
pub proof fn failed_pass_registers_again(interval_secs: u64, nanos: u32, done: bool)
    ensures
        ({
            let (p1, a1) = heartbeat_next(HeartbeatPhase::Passing, false, interval_secs, nanos);
            let (p2, a2) = heartbeat_next(p1, done, interval_secs, nanos);
            let (p3, a3) = heartbeat_next(p2, done, interval_secs, nanos);
            let (p4, a4) = heartbeat_next(p3, done, interval_secs, nanos);
            &&& a1 matches HeartbeatAction::Sleep(n) && n < 5
            &&& a2 == HeartbeatAction::Register
            &&& a3 == HeartbeatAction::Sleep(interval_secs)
            &&& a4 == HeartbeatAction::Pass
        }),
{
}

/// Where a heartbeat stands after so many steps, the outcome of each and the
/// clock at each given.
pub open spec fn heartbeat_after(
    done: Seq<bool>,
    interval_secs: u64,
    nanos: Seq<u32>,
    steps: nat,
) -> (HeartbeatPhase, HeartbeatAction)
    decreases steps,
{
    if steps == 0 {
        (HeartbeatPhase::WarmingUp, HeartbeatAction::Sleep(1))
    } else {
        let before = heartbeat_after(done, interval_secs, nanos, (steps - 1) as nat);
        heartbeat_next(before.0, done[steps - 1], interval_secs, nanos[steps - 1])
    }
}

/// A pass that succeeds is followed by a wait of the interval, and that by the
/// next pass, whatever the clock says.
pub proof fn passed_check_waits_for_the_next(
    interval_secs: u64,
    nanos: (u32, u32),
    done: bool,
    first: bool,
)
    ensures
        ({
            let passing = if first {
                HeartbeatPhase::FirstPass
            } else {
                HeartbeatPhase::Passing
            };
            let (p1, a1) = heartbeat_next(passing, true, interval_secs, nanos.0);
            let (p2, a2) = heartbeat_next(p1, done, interval_secs, nanos.1);
            &&& a1 == HeartbeatAction::Sleep(interval_secs)
            &&& a2 == HeartbeatAction::Pass
            &&& p2 == HeartbeatPhase::Passing
        }),
{
}

proof fn lemma_heartbeat_while_passing(
    done: Seq<bool>,
    interval_secs: u64,
    nanos: Seq<u32>,
    steps: nat,
)
    requires
        forall|i: int| 0 <= i < steps ==> #[trigger] done[i],
    ensures
        ({
            let (phase, action) = heartbeat_after(done, interval_secs, nanos, steps);
            &&& steps == 0 ==> phase == HeartbeatPhase::WarmingUp
            &&& steps == 1 ==> phase == HeartbeatPhase::FirstPass
            &&& steps > 1 && steps % 2 == 1 ==> phase == HeartbeatPhase::Passing
            &&& steps > 1 && steps % 2 == 0 ==> phase == HeartbeatPhase::Waiting
        }),
    decreases steps,
{
    if steps > 0 {
        lemma_heartbeat_while_passing(done, interval_secs, nanos, (steps - 1) as nat);
        assert(done[steps - 1]);
    }
}

/// As long as every pass succeeds, a heartbeat waits one second at first and
/// then passes and waits the interval in turn; the service is never registered
/// again.
pub proof fn passing_service_stays_registered(
    done: Seq<bool>,
    interval_secs: u64,
    nanos: Seq<u32>,
    steps: nat,
)
    requires
        forall|i: int| 0 <= i < steps ==> #[trigger] done[i],
    ensures
        ({
            let action = heartbeat_after(done, interval_secs, nanos, steps).1;
            &&& steps == 0 ==> action == HeartbeatAction::Sleep(1)
            &&& steps % 2 == 1 ==> action == HeartbeatAction::Pass
            &&& steps > 0 && steps % 2 == 0 ==> action == HeartbeatAction::Sleep(interval_secs)
            &&& action != HeartbeatAction::Register
        }),
{
    lemma_heartbeat_while_passing(done, interval_secs, nanos, steps);
    if steps > 0 {
        lemma_heartbeat_while_passing(done, interval_secs, nanos, (steps - 1) as nat);
        assert(done[steps - 1]);
    }
}

/// The service is registered again only after a pass that failed, two steps
/// before, and that was not the first one; the wait between them is what the
/// clock's fraction of a second leaves over fives.
pub proof fn only_a_failed_pass_registers(
    done: Seq<bool>,
    interval_secs: u64,
    nanos: Seq<u32>,
    steps: nat,
)
    requires
        heartbeat_after(done, interval_secs, nanos, steps).1 == HeartbeatAction::Register,
    ensures
        steps >= 5,
        !done[steps - 2],
        heartbeat_after(done, interval_secs, nanos, (steps - 2) as nat).1 == HeartbeatAction::Pass,
        heartbeat_after(done, interval_secs, nanos, (steps - 1) as nat).1 == HeartbeatAction::Sleep(
            (nanos[steps - 2] % 5) as u64,
        ),
{
    reveal_with_fuel(heartbeat_after, 6);
}

} // verus!
