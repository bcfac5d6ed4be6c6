//! Service registration and discovery.
//!
//! Services announce themselves so that a consumer can see them. An
//! announcement is stored under the key `{namespace}/{name}/{id}`; its value
//! is the instance as JSON, fields in the order `id`, `name`, `version`,
//! `endpoints`, `metadata`, with `&`, `<` and `>` escaped. A reader looks a service up by the prefix
//! `{namespace}/{name}` and keeps the instances whose name matches.
use vstd::prelude::*;

use crate::json::{
    copy_map, pair_value, pairs_of, read_members, read_opt_text, read_opt_texts, to_page_text, write_object,
    write_text, write_text_map, write_texts,
};
use crate::string_map::StringMap;
use crate::text::cat;

pub mod consul;
pub mod endpoint;
pub mod etcd;
pub mod eureka;
pub mod kubernetes;
pub mod nacos;
pub mod polaris;
pub mod servicecomb;
pub mod snapshots;
pub mod zookeeper;

verus! {

/// The namespace that keys live under where none is given.
pub const DEFAULT_NAMESPACE: &'static str = "/microservices";

/// Errors produced by registry backends.
#[derive(Debug)]
#[non_exhaustive]
pub enum RegistryError {
    /// The backend could not complete the operation.
    Failed(String),
}

impl RegistryError {
    /// What went wrong.
    pub open spec fn reason(&self) -> Seq<char> {
        match self {
            RegistryError::Failed(msg) => msg@,
        }
    }

    /// The error as a line of text.
    pub fn message(&self) -> (s: String)
        ensures
            s@ == "registry operation failed: "@ + self.reason(),
    {
        match self {
            RegistryError::Failed(msg) => cat("registry operation failed: ", msg.as_str()),
        }
    }
}

/// `r` is the failure with the reason `text`.
pub open spec fn failed<T>(r: Result<T, RegistryError>, text: Seq<char>) -> bool {
    r matches Err(e) && e.reason() == text
}

/// A failure is told from a success, and by its reason from other failures.
pub proof fn failure_has_one_reason<T>(
    r: Result<T, RegistryError>,
    text: Seq<char>,
    other: Seq<char>,
)
    ensures
        r is Ok ==> !failed(r, text),
        failed(r, text) && failed(r, other) ==> text == other,
        r matches Err(RegistryError::Failed(msg)) ==> (failed(r, text) <==> msg@ == text),
{
}

/// One running instance of a service.
#[derive(Debug, PartialEq)]
pub struct Instance {
    /// Unique within the service.
    pub id: String,
    /// The service's name.
    pub name: String,
    /// The service's version.
    pub version: String,
    /// Where the instance can be reached, as URLs.
    pub endpoints: Vec<String>,
}

/// What an [`Instance`] holds.
pub struct InstanceView {
    pub id: Seq<char>,
    pub name: Seq<char>,
    pub version: Seq<char>,
    pub endpoints: Seq<Seq<char>>,
}

impl View for Instance {
    type V = InstanceView;

    open spec fn view(&self) -> InstanceView {
        InstanceView {
            id: self.id@,
            name: self.name@,
            version: self.version@,
            endpoints: crate::text::texts(self.endpoints@),
        }
    }
}

/// What a list of instances holds.
pub open spec fn instance_views(l: Seq<Instance>) -> Seq<InstanceView> {
    Seq::new(l.len(), |i: int| l[i]@)
}

/// A list of instances holds what each of them does, one by one and in their
/// order, and an instance holds its four parts.
pub proof fn instances_hold_their_parts(l: Seq<Instance>)
    ensures
        instance_views(l).len() == l.len(),
        forall|i: int|
            #![trigger l[i]]
            0 <= i < l.len() ==> {
                let v = instance_views(l)[i];
                &&& v.id == l[i].id@
                &&& v.name == l[i].name@
                &&& v.version == l[i].version@
                &&& v.endpoints.len() == l[i].endpoints@.len()
                &&& forall|k: int|
                    0 <= k < v.endpoints.len() ==> #[trigger] v.endpoints[k]
                        == l[i].endpoints@[k]@
            },
{
}

/// Copies a list of strings.
pub fn copy_texts(l: &Vec<String>) -> (r: Vec<String>)
    ensures
        crate::text::texts(r@) == crate::text::texts(l@),
{
    let mut r: Vec<String> = Vec::new();
    let mut i: usize = 0;
    while i < l.len()
        invariant
            i <= l@.len(),
            r@.len() == i,
            forall|j: int| 0 <= j < i ==> (#[trigger] r@[j])@ == l@[j]@,
        decreases l@.len() - i,
    {
        r.push(l[i].clone());
        i += 1;
    }
    assert(crate::text::texts(r@) =~= crate::text::texts(l@));
    r
}

impl Clone for Instance {
    fn clone(&self) -> (r: Self)
        ensures
            r@ == self@,
    {
        Instance {
            id: self.id.clone(),
            name: self.name.clone(),
            version: self.version.clone(),
            endpoints: copy_texts(&self.endpoints),
        }
    }
}

impl Default for Instance {
    fn default() -> (r: Self)
        ensures
            r@ == (InstanceView {
                id: Seq::empty(),
                name: Seq::empty(),
                version: Seq::empty(),
                endpoints: Seq::empty(),
            }),
    {
        let r = Instance {
            id: String::new(),
            name: String::new(),
            version: String::new(),
            endpoints: Vec::new(),
        };
        assert(r@.endpoints =~= Seq::<Seq<char>>::empty());
        r
    }
}

/// Copies a list of instances.
pub fn copy_instances(l: &Vec<Instance>) -> (r: Vec<Instance>)
    ensures
        instance_views(r@) == instance_views(l@),
{
    let mut r: Vec<Instance> = Vec::new();
    let mut i: usize = 0;
    while i < l.len()
        invariant
            i <= l@.len(),
            r@.len() == i,
            forall|j: int| 0 <= j < i ==> (#[trigger] r@[j])@ == l@[j]@,
        decreases l@.len() - i,
    {
        r.push(l[i].clone());
        i += 1;
    }
    assert(instance_views(r@) =~= instance_views(l@));
    r
}

/// One service announcement: the instance and optional metadata.
#[derive(Debug)]
pub struct Registration {
    /// The instance being announced.
    pub instance: Instance,
    /// Free-form metadata; absent metadata is written as `null`.
    pub metadata: Option<StringMap<String>>,
}

/// What a [`Registration`] holds.
pub struct RegistrationView {
    pub instance: InstanceView,
    pub metadata: Option<Map<Seq<char>, Seq<char>>>,
}

impl View for Registration {
    type V = RegistrationView;

    open spec fn view(&self) -> RegistrationView {
        RegistrationView {
            instance: self.instance@,
            metadata: match self.metadata {
                Some(m) => Some(crate::json::map_texts(m@)),
                None => None,
            },
        }
    }
}

impl Clone for Registration {
    fn clone(&self) -> (r: Self)
        ensures
            r@ == self@,
    {
        Registration {
            instance: self.instance.clone(),
            metadata: match &self.metadata {
                Some(m) => Some(copy_map(m)),
                None => None,
            },
        }
    }
}

impl Default for Registration {
    fn default() -> (r: Self)
        ensures
            r@ == (RegistrationView {
                instance: InstanceView {
                    id: Seq::empty(),
                    name: Seq::empty(),
                    version: Seq::empty(),
                    endpoints: Seq::empty(),
                },
                metadata: None,
            }),
    {
        Registration { instance: Instance::default(), metadata: None }
    }
}

impl Registration {
    /// Announces an instance without metadata.
    pub fn new(instance: Instance) -> (r: Registration)
        ensures
            r@ == (RegistrationView { instance: instance@, metadata: None }),
    {
        Registration { instance, metadata: None }
    }

    /// Attaches metadata.
    pub fn with_metadata(self, metadata: StringMap<String>) -> (r: Registration)
        ensures
            r@ == (RegistrationView {
                instance: self@.instance,
                metadata: Some(crate::json::map_texts(metadata@)),
            }),
    {
        Registration { instance: self.instance, metadata: Some(metadata) }
    }
}

/// The prefix that the keys of a service begin with: `{namespace}/{name}`.
pub open spec fn prefix_text(namespace: Seq<char>, name: Seq<char>) -> Seq<char> {
    namespace + "/"@ + name
}

/// The key of an instance: `{namespace}/{name}/{id}`.
pub open spec fn key_text(namespace: Seq<char>, name: Seq<char>, id: Seq<char>) -> Seq<char> {
    namespace + "/"@ + name + "/"@ + id
}

/// The key that an instance is announced under.
pub fn registry_key(namespace: &str, instance: &Instance) -> (s: String)
    ensures
        s@ == key_text(namespace@, instance@.name, instance@.id),
{
    let mut s: String = service_prefix(namespace, instance.name.as_str());
    s.append("/");
    s.append(instance.id.as_str());
    s
}

/// The prefix to look a service up by. It also covers services whose name
/// begins with `service_name`, so readers filter what they find by name.
pub fn service_prefix(namespace: &str, service_name: &str) -> (s: String)
    ensures
        s@ == prefix_text(namespace@, service_name@),
{
    let mut s: String = namespace.to_owned();
    s.append("/");
    s.append(service_name);
    s
}

/// Every instance's key is the prefix of its service, a slash and its id.
pub proof fn key_lies_under_prefix(namespace: Seq<char>, name: Seq<char>, id: Seq<char>)
    ensures
        key_text(namespace, name, id) == prefix_text(namespace, name) + "/"@ + id,
        prefix_text(namespace, name).is_prefix_of(key_text(namespace, name, id)),
{
    let key = key_text(namespace, name, id);
    let prefix = prefix_text(namespace, name);
    assert(key.subrange(0, prefix.len() as int) =~= prefix);
}

/// The JSON members of a registration, in the order in which they are written,
/// with this text for the endpoints.
pub open spec fn members_with(r: RegistrationView, endpoints: Seq<char>) -> Seq<
    (Seq<char>, Seq<char>),
> {
    seq![
        ("id"@, crate::json::json_quoted(r.instance.id)),
        ("name"@, crate::json::json_quoted(r.instance.name)),
        ("version"@, crate::json::json_quoted(r.instance.version)),
        ("endpoints"@, endpoints),
        (
            "metadata"@,
            match r.metadata {
                Some(m) => crate::json::json_text_map(m),
                None => "null"@,
            },
        ),
    ]
}

/// The JSON members of a registration, in the order in which they are written.
pub open spec fn registry_members(r: RegistrationView) -> Seq<(Seq<char>, Seq<char>)> {
    members_with(r, crate::json::json_texts(r.instance.endpoints))
}

/// The stored value of a registration whose list of endpoints is not even
/// empty: `null` stands in its place.
pub open spec fn unlisted_text(r: RegistrationView) -> Seq<char> {
    crate::json::page_text(crate::json::object_text(members_with(r, "null"@)))
}

/// The stored value of a registration: its members, with the characters that a
/// page gives a meaning to escaped.
pub open spec fn registry_text(r: RegistrationView) -> Seq<char> {
    crate::json::page_text(crate::json::object_text(registry_members(r)))
}

/// A registration is stored with five members, each under its own name and in
/// this order; the metadata is `null` exactly where there is none.
pub proof fn registration_is_stored_part_by_part(r: RegistrationView)
    ensures
        ({
            let members = registry_members(r);
            &&& members.len() == 5
            &&& members[0] == ("id"@, crate::json::json_quoted(r.instance.id))
            &&& members[1] == ("name"@, crate::json::json_quoted(r.instance.name))
            &&& members[2] == ("version"@, crate::json::json_quoted(r.instance.version))
            &&& members[3] == ("endpoints"@, crate::json::json_texts(r.instance.endpoints))
            &&& members[4].0 == "metadata"@
            &&& r.metadata is None ==> members[4].1 == "null"@
            &&& r.metadata matches Some(m) ==> members[4].1 == crate::json::json_text_map(m)
            &&& registry_text(r) == crate::json::page_text(crate::json::object_text(members))
        }),
{
}

/// Writes a registration as its stored value: the bytes of Go's `json.Marshal`.
pub fn registry_json(registration: &Registration) -> (s: String)
    ensures
        s@ == registry_text(registration@),
{
    let mut members: Vec<(String, String)> = Vec::new();
    members.push(("id".to_owned(), write_text(registration.instance.id.as_str())));
    members.push(("name".to_owned(), write_text(registration.instance.name.as_str())));
    members.push(("version".to_owned(), write_text(registration.instance.version.as_str())));
    members.push(("endpoints".to_owned(), write_texts(&registration.instance.endpoints)));
    let metadata: String = match &registration.metadata {
        Some(m) => write_text_map(pairs_of(m)),
        None => "null".to_owned(),
    };
    members.push(("metadata".to_owned(), metadata));
    assert(crate::json::pair_texts(members@) =~= registry_members(registration@));
    to_page_text(write_object(&members).as_str())
}

/// What reading a field gave: nothing where the field is absent or `null`.
pub open spec fn text_field(m: Map<Seq<char>, Seq<char>>, name: Seq<char>) -> Result<
    Option<Seq<char>>,
    Seq<char>,
> {
    if m.contains_key(name) {
        crate::json::json_as_opt_text(m[name])
    } else {
        Ok(None)
    }
}

/// As [`text_field`], for a field that holds a list of strings.
pub open spec fn texts_field(m: Map<Seq<char>, Seq<char>>, name: Seq<char>) -> Result<
    Option<Seq<Option<Seq<char>>>>,
    Seq<char>,
> {
    if m.contains_key(name) {
        crate::json::json_as_opt_texts(m[name])
    } else {
        Ok(None)
    }
}

/// The reason given for a value that cannot be read.
pub open spec fn unreadable(why: Seq<char>) -> Seq<char> {
    "registry wire parse: "@ + why
}

/// The instance that the four fields make: a field that is absent or `null` is
/// empty, and the first field that could not be read makes the whole
/// unreadable.
pub open spec fn assembled(
    id: Result<Option<Seq<char>>, Seq<char>>,
    name: Result<Option<Seq<char>>, Seq<char>>,
    version: Result<Option<Seq<char>>, Seq<char>>,
    endpoints: Result<Option<Seq<Option<Seq<char>>>>, Seq<char>>,
) -> Result<InstanceView, Seq<char>> {
    match (id, name, version, endpoints) {
        (Err(e), _, _, _) => Err(unreadable(e)),
        (_, Err(e), _, _) => Err(unreadable(e)),
        (_, _, Err(e), _) => Err(unreadable(e)),
        (_, _, _, Err(e)) => Err(unreadable(e)),
        (Ok(id), Ok(name), Ok(version), Ok(endpoints)) => Ok(
            InstanceView {
                id: text_or_empty(id),
                name: text_or_empty(name),
                version: text_or_empty(version),
                endpoints: texts_or_empty(endpoints),
            },
        ),
    }
}

/// An optional text, empty where there is none.
pub open spec fn text_or_empty(s: Option<Seq<char>>) -> Seq<char> {
    match s {
        Some(s) => s,
        None => Seq::empty(),
    }
}

/// An optional list of optional texts: empty where there is none, and with
/// empty texts where there are none.
pub open spec fn texts_or_empty(l: Option<Seq<Option<Seq<char>>>>) -> Seq<Seq<char>> {
    match l {
        Some(l) => Seq::new(l.len(), |i: int| text_or_empty(l[i])),
        None => Seq::empty(),
    }
}

/// A result with its value and its reason as views.
pub open spec fn instance_outcome(r: Result<Instance, RegistryError>) -> Result<
    InstanceView,
    Seq<char>,
> {
    match r {
        Ok(i) => Ok(i@),
        Err(e) => Err(e.reason()),
    }
}

/// What came back is what it is: an instance is one with its parts, a failure
/// one with its reason.
pub proof fn outcome_is_what_came_back(r: Result<Instance, RegistryError>)
    ensures
        r matches Ok(i) ==> instance_outcome(r) == Ok::<InstanceView, Seq<char>>(i@),
        r matches Err(e) ==> instance_outcome(r) == Err::<InstanceView, Seq<char>>(e.reason()),
{
}

fn settle_text(field: Result<Option<String>, String>) -> (r: Result<String, RegistryError>)
    ensures
        match crate::json::opt_text_outcome(field) {
            Err(e) => failed(r, unreadable(e)),
            Ok(text) => r matches Ok(s) && s@ == text_or_empty(text),
        },
{
    match field {
        Ok(Some(s)) => Ok(s),
        Ok(None) => Ok(String::new()),
        Err(e) => Err(RegistryError::Failed(cat("registry wire parse: ", e.as_str()))),
    }
}

fn settle_texts(field: Result<Option<Vec<Option<String>>>, String>) -> (r: Result<
    Vec<String>,
    RegistryError,
>)
    ensures
        match crate::json::opt_texts_outcome(field) {
            Err(e) => failed(r, unreadable(e)),
            Ok(l) => r matches Ok(got) && crate::text::texts(got@) == texts_or_empty(l),
        },
{
    let mut r: Vec<String> = Vec::new();
    match field {
        Ok(Some(l)) => {
            let mut i: usize = 0;
            while i < l.len()
                invariant
                    i <= l@.len(),
                    r@.len() == i,
                    forall|j: int|
                        0 <= j < i ==> (#[trigger] r@[j])@ == text_or_empty(
                            crate::text::opt_text(l@[j]),
                        ),
                decreases l@.len() - i,
            {
                match &l[i] {
                    Some(s) => r.push(s.clone()),
                    None => r.push(String::new()),
                }
                i += 1;
            }
            assert(crate::text::texts(r@) =~= texts_or_empty(
                Some(crate::json::opt_texts(l@)),
            ));
        },
        Ok(None) => {
            assert(crate::text::texts(r@) =~= Seq::<Seq<char>>::empty());
        },
        Err(e) => {
            return Err(RegistryError::Failed(cat("registry wire parse: ", e.as_str())));
        },
    }
    Ok(r)
}

/// Puts an instance together from what reading its fields gave, nothing where
/// a field is absent or `null`.
pub fn assemble_instance(
    id: Result<Option<String>, String>,
    name: Result<Option<String>, String>,
    version: Result<Option<String>, String>,
    endpoints: Result<Option<Vec<Option<String>>>, String>,
) -> (r: Result<Instance, RegistryError>)
    ensures
        instance_outcome(r) == assembled(
            crate::json::opt_text_outcome(id),
            crate::json::opt_text_outcome(name),
            crate::json::opt_text_outcome(version),
            crate::json::opt_texts_outcome(endpoints),
        ),
{
    let id = settle_text(id)?;
    let name = settle_text(name)?;
    let version = settle_text(version)?;
    let endpoints = settle_texts(endpoints)?;
    Ok(Instance { id, name, version, endpoints })
}

fn read_text_field(pairs: &Vec<(String, String)>, name: &str) -> (r: Result<
    Option<String>,
    String,
>)
    ensures
        crate::json::opt_text_outcome(r) == text_field(crate::json::pairs_map(pairs@), name@),
        forall|s: Seq<char>|
            crate::json::pairs_map(pairs@).contains_key(name@) && crate::json::pairs_map(
                pairs@,
            )[name@] == crate::json::page_text(#[trigger] crate::json::json_quoted(s))
                ==> crate::json::gives_text(r, s),
{
    match pair_value(pairs, name) {
        Some(t) => read_opt_text(t.as_str()),
        None => Ok(None),
    }
}

fn read_texts_field(pairs: &Vec<(String, String)>, name: &str) -> (r: Result<
    Option<Vec<Option<String>>>,
    String,
>)
    ensures
        crate::json::opt_texts_outcome(r) == texts_field(crate::json::pairs_map(pairs@), name@),
        crate::json::pairs_map(pairs@).contains_key(name@) && crate::json::pairs_map(pairs@)[name@]
            == "null"@ ==> r matches Ok(None),
        forall|l: Seq<Seq<char>>|
            crate::json::pairs_map(pairs@).contains_key(name@) && crate::json::pairs_map(
                pairs@,
            )[name@] == crate::json::page_text(#[trigger] crate::json::json_texts(l))
                ==> crate::json::gives_texts(r, l),
{
    match pair_value(pairs, name) {
        Some(t) => read_opt_texts(t.as_str()),
        None => Ok(None),
    }
}

/// The metadata is a finite map, as every map in memory is.
pub open spec fn is_storable(r: RegistrationView) -> bool {
    r.metadata matches Some(m) ==> m.dom().finite()
}

proof fn lemma_members(r: RegistrationView, endpoints: Seq<char>)
    requires
        is_storable(r),
        crate::json::is_written(endpoints),
    ensures
        ({
            let members = members_with(r, endpoints);
            let m = crate::json::members_map(crate::json::page_members(members));
            &&& forall|i: int, j: int| 0 <= i < j < members.len() ==> members[i].0 != members[j].0
            &&& forall|i: int|
                0 <= i < members.len() ==> crate::json::is_written(#[trigger] members[i].1)
            &&& m.contains_key("id"@) && m["id"@] == crate::json::page_text(
                crate::json::json_quoted(r.instance.id),
            )
            &&& m.contains_key("name"@) && m["name"@] == crate::json::page_text(
                crate::json::json_quoted(r.instance.name),
            )
            &&& m.contains_key("version"@) && m["version"@] == crate::json::page_text(
                crate::json::json_quoted(r.instance.version),
            )
            &&& m.contains_key("endpoints"@) && m["endpoints"@] == crate::json::page_text(
                endpoints,
            )
        }),
{
    reveal_strlit("id");
    reveal_strlit("name");
    reveal_strlit("version");
    reveal_strlit("endpoints");
    reveal_strlit("metadata");
    reveal_with_fuel(crate::json::members_map, 6);
    assert("id"@.len() == 2 && "name"@.len() == 4 && "version"@.len() == 7 && "endpoints"@.len()
        == 9 && "metadata"@.len() == 8);
}

proof fn lemma_page_null()
    ensures
        crate::json::page_text("null"@) == "null"@,
{
    reveal_strlit("null");
    crate::json::page_text_is_plain("null"@);
}

/// What a stored value is read as. `null` announces nothing at all.
pub open spec fn parsed(data: Seq<char>) -> Result<InstanceView, Seq<char>> {
    match crate::json::json_members(data) {
        Err(e) => Err(unreadable(e)),
        Ok(None) => assembled(Ok(None), Ok(None), Ok(None), Ok(None)),
        Ok(Some(m)) => assembled(
            text_field(m, "id"@),
            text_field(m, "name"@),
            text_field(m, "version"@),
            texts_field(m, "endpoints"@),
        ),
    }
}

/// Reads a stored value back as the instance it announces. Fields that are
/// absent or `null` are empty, and so is the whole where it is `null`; further
/// fields (the metadata among them) are passed over. What [`registry_json`]
/// writes is read back as the instance that went in, and the same with `null`
/// for the endpoints as that instance without any.
pub fn registry_parse(data: &str) -> (r: Result<Instance, RegistryError>)
    ensures
        instance_outcome(r) == parsed(data@),
        forall|written: RegistrationView|
            is_storable(written) && data@ == #[trigger] registry_text(written) ==> (r matches Ok(i)
                && i@
                == written.instance),
        forall|written: RegistrationView|
            is_storable(written) && data@ == #[trigger] unlisted_text(written) ==> (r matches Ok(i)
                && i@ == (InstanceView { endpoints: Seq::empty(), ..written.instance })),
{
    let read = read_members(data);
    proof {
        assert forall|written: RegistrationView|
            is_storable(written) && data@ == #[trigger] registry_text(written)
                implies crate::json::gives_members(
            read,
            crate::json::page_members(registry_members(written)),
        ) by {
            lemma_members(written, crate::json::json_texts(written.instance.endpoints));
        }
        assert forall|written: RegistrationView|
            is_storable(written) && data@ == #[trigger] unlisted_text(written)
                implies crate::json::gives_members(
            read,
            crate::json::page_members(members_with(written, "null"@)),
        ) by {
            lemma_members(written, "null"@);
        }
    }
    let pairs = match read {
        Ok(Some(pairs)) => pairs,
        Ok(None) => {
            return assemble_instance(Ok(None), Ok(None), Ok(None), Ok(None));
        },
        Err(e) => {
            return Err(RegistryError::Failed(cat("registry wire parse: ", e.as_str())));
        },
    };
    let id = read_text_field(&pairs, "id");
    let name = read_text_field(&pairs, "name");
    let version = read_text_field(&pairs, "version");
    let endpoints = read_texts_field(&pairs, "endpoints");
    let r = assemble_instance(id, name, version, endpoints);
    proof {
        assert forall|written: RegistrationView|
            is_storable(written) && data@ == #[trigger] registry_text(written) implies r matches Ok(
            i,
        ) && i@ == written.instance by {
            let l = written.instance.endpoints;
            lemma_members(written, crate::json::json_texts(l));
            assert(crate::json::gives_text(id, written.instance.id));
            assert(crate::json::gives_text(name, written.instance.name));
            assert(crate::json::gives_text(version, written.instance.version));
            assert(crate::json::gives_texts(endpoints, l));
            assert(texts_or_empty(Some(Seq::new(l.len(), |i: int| Some(l[i])))) =~= l);
        }
        assert forall|written: RegistrationView|
            is_storable(written) && data@ == #[trigger] unlisted_text(written) implies r matches Ok(
            i,
        ) && i@ == (InstanceView { endpoints: Seq::empty(), ..written.instance }) by {
            lemma_members(written, "null"@);
            lemma_page_null();
            assert(crate::json::gives_text(id, written.instance.id));
            assert(crate::json::gives_text(name, written.instance.name));
            assert(crate::json::gives_text(version, written.instance.version));
        }
    }
    r
}

/// What reading stored values gives, each a text or the reason why there is
/// none: the instances with the name asked for (all, where none is), in order,
/// or the first failure.
pub open spec fn read_values_as(
    values: Seq<Result<Seq<char>, Seq<char>>>,
    name: Option<Seq<char>>,
) -> Result<Seq<InstanceView>, Seq<char>>
    decreases values.len(),
{
    if values.len() == 0 {
        Ok(Seq::empty())
    } else {
        match read_values_as(values.drop_last(), name) {
            Err(e) => Err(e),
            Ok(l) => match values.last() {
                Err(e) => Err(e),
                Ok(text) => match parsed(text) {
                    Err(e) => Err(e),
                    Ok(i) => Ok(
                        if name is None || name == Some(i.name) {
                            l.push(i)
                        } else {
                            l
                        },
                    ),
                },
            },
        }
    }
}

/// The texts of stored values.
pub open spec fn value_views(values: Seq<Result<String, String>>) -> Seq<
    Result<Seq<char>, Seq<char>>,
> {
    Seq::new(values.len(), |i: int| crate::json::text_outcome(values[i]))
}

proof fn lemma_reading_fails(
    values: Seq<Result<Seq<char>, Seq<char>>>,
    name: Option<Seq<char>>,
    k: int,
)
    requires
        0 <= k <= values.len(),
        read_values_as(values.take(k), name) is Err,
    ensures
        read_values_as(values, name) == read_values_as(values.take(k), name),
    decreases values.len() - k,
{
    if k < values.len() {
        assert(values.take(k + 1).drop_last() =~= values.take(k));
        lemma_reading_fails(values, name, k + 1);
    } else {
        assert(values.take(k) =~= values);
    }
}

/// The instances among some announcements that bear a name, in order.
pub open spec fn announced_as(written: Seq<RegistrationView>, name: Option<Seq<char>>) -> Seq<
    InstanceView,
>
    decreases written.len(),
{
    if written.len() == 0 {
        Seq::empty()
    } else {
        let rest = announced_as(written.drop_last(), name);
        if name is None || name == Some(written.last().instance.name) {
            rest.push(written.last().instance)
        } else {
            rest
        }
    }
}

/// The values are what was written for these announcements.
pub open spec fn are_written(values: Seq<Result<Seq<char>, Seq<char>>>, written: Seq<
    RegistrationView,
>) -> bool {
    &&& values.len() == written.len()
    &&& forall|i: int|
        0 <= i < values.len() ==> #[trigger] values[i] == Ok::<Seq<char>, Seq<char>>(
            registry_text(written[i]),
        ) && is_storable(written[i])
}

/// What stored values say is what each of them does, one by one and in their
/// order.
pub proof fn values_are_taken_one_by_one(values: Seq<Result<String, String>>)
    ensures
        value_views(values).len() == values.len(),
        forall|i: int|
            #![trigger values[i]]
            0 <= i < values.len() ==> match values[i] {
                Ok(s) => value_views(values)[i] == Ok::<Seq<char>, Seq<char>>(s@),
                Err(e) => value_views(values)[i] == Err::<Seq<char>, Seq<char>>(e@),
            },
{
}

/// Reads stored values, keeping the instances with the name asked for. A value
/// that is missing or cannot be read makes the whole fail. Announcements that
/// were written are read back as they were.
#[verifier::loop_isolation(false)]
pub fn read_values(values: &Vec<Result<String, String>>, name: Option<&str>) -> (r: Result<
    Vec<Instance>,
    RegistryError,
>)
    ensures
        ({
            let wanted = match name {
                Some(n) => Some(n@),
                None => None,
            };
            &&& match r {
                Ok(l) => read_values_as(value_views(values@), wanted) == Ok::<
                    Seq<InstanceView>,
                    Seq<char>,
                >(instance_views(l@)),
                Err(e) => read_values_as(value_views(values@), wanted) == Err::<
                    Seq<InstanceView>,
                    Seq<char>,
                >(e.reason()),
            }
            &&& r matches Ok(l) ==> forall|i: int|
                0 <= i < l@.len() ==> (wanted is None || wanted == Some((#[trigger] l@[i])@.name))
            &&& forall|written: Seq<RegistrationView>| #[trigger]
                are_written(value_views(values@), written) ==> (r matches Ok(l) && instance_views(
                    l@,
                ) == announced_as(written, wanted))
        }),
{
    let ghost wanted = match name {
        Some(n) => Some(n@),
        None => None,
    };
    let ghost views = value_views(values@);
    let mut instances: Vec<Instance> = Vec::new();
    let mut i: usize = 0;
    proof {
        assert(views.take(0) =~= Seq::empty());
        assert(instance_views(instances@) =~= Seq::empty());
        assert forall|written: Seq<RegistrationView>| #[trigger]
            are_written(views, written) implies instance_views(instances@) == announced_as(
            written.take(0),
            wanted,
        ) by {
            assert(written.take(0) =~= Seq::empty());
        }
    }
    while i < values.len()
        invariant
            i <= values@.len(),
            read_values_as(views.take(i as int), wanted) == Ok::<Seq<InstanceView>, Seq<char>>(
                instance_views(instances@),
            ),
            forall|j: int|
                0 <= j < instances@.len() ==> (wanted is None || wanted == Some(
                    (#[trigger] instances@[j])@.name,
                )),
            forall|written: Seq<RegistrationView>| #[trigger]
                are_written(views, written) ==> instance_views(instances@) == announced_as(
                    written.take(i as int),
                    wanted,
                ),
        decreases values@.len() - i,
    {
        let ghost before = instances@;
        proof {
            assert(views.take(i + 1).drop_last() =~= views.take(i as int));
            assert(views.take(i + 1).last() == views[i as int]);
            assert forall|written: Seq<RegistrationView>| #[trigger]
                are_written(views, written) implies written.take(i + 1).drop_last()
                =~= written.take(i as int) && written.take(i + 1).last() == written[i as int]
                && views[i as int] == Ok::<Seq<char>, Seq<char>>(
                registry_text(written[i as int]),
            ) by {}
        }
        let text = match &values[i] {
            Ok(text) => text,
            Err(e) => {
                proof {
                    lemma_reading_fails(views, wanted, i + 1);
                }
                return Err(RegistryError::Failed(e.clone()));
            },
        };
        let instance = match registry_parse(text.as_str()) {
            Ok(instance) => instance,
            Err(e) => {
                proof {
                    lemma_reading_fails(views, wanted, i + 1);
                }
                return Err(e);
            },
        };
        let keep: bool = match name {
            Some(n) => crate::text::same(instance.name.as_str(), n),
            None => true,
        };
        if keep {
            instances.push(instance);
            assert(instance_views(instances@) =~= instance_views(before).push(instance@));
        }
        i += 1;
        proof {
            assert forall|written: Seq<RegistrationView>| #[trigger]
                are_written(views, written) implies instance_views(instances@) == announced_as(
                written.take(i as int),
                wanted,
            ) by {
                assert(instance@ == written[i - 1].instance);
            }
        }
    }
    proof {
        assert(views.take(i as int) =~= views);
        assert forall|written: Seq<RegistrationView>| #[trigger]
            are_written(views, written) implies instance_views(instances@) == announced_as(
            written,
            wanted,
        ) by {
            assert(written.take(i as int) =~= written);
        }
    }
    Ok(instances)
}

/// What reading one stored value gave.
pub open spec fn value_read(value: Result<Seq<char>, Seq<char>>) -> Result<
    InstanceView,
    Seq<char>,
> {
    match value {
        Ok(text) => parsed(text),
        Err(e) => Err(e),
    }
}

/// Stored values that can all be read give each instance with the name asked
/// for once, in the order of the values, and no other; all of them where no
/// name is asked for.
pub proof fn each_value_of_the_name_is_read_once(
    values: Seq<Result<Seq<char>, Seq<char>>>,
    name: Option<Seq<char>>,
)
    requires
        forall|i: int| 0 <= i < values.len() ==> value_read(#[trigger] values[i]) is Ok,
    ensures
        read_values_as(values, name) matches Ok(l) && crate::listing::picks(
            l,
            values,
            |v: Result<Seq<char>, Seq<char>>|
                name matches Some(n) ==> value_read(v)->Ok_0.name == n,
            |v: Result<Seq<char>, Seq<char>>| value_read(v)->Ok_0,
        ),
    decreases values.len(),
{
    let wanted = |v: Result<Seq<char>, Seq<char>>|
        name matches Some(n) ==> value_read(v)->Ok_0.name == n;
    let instance = |v: Result<Seq<char>, Seq<char>>| value_read(v)->Ok_0;
    if values.len() == 0 {
        crate::listing::nothing_is_picked(
            read_values_as(values, name)->Ok_0,
            values,
            wanted,
            instance,
        );
    } else {
        let head = values.drop_last();
        assert forall|i: int| 0 <= i < head.len() implies value_read(#[trigger] head[i]) is Ok by {
            assert(head[i] == values[i]);
        }
        each_value_of_the_name_is_read_once(head, name);
        assert(value_read(values[values.len() - 1]) is Ok);
        crate::listing::picking_one_more(
            read_values_as(head, name)->Ok_0,
            values,
            wanted,
            instance,
        );
    }
}

/// A value that is missing or cannot be read makes the whole fail, whatever
/// follows it: what is reported is the first such value's reason.
pub proof fn first_unreadable_value_is_reported(
    values: Seq<Result<Seq<char>, Seq<char>>>,
    name: Option<Seq<char>>,
    k: int,
)
    requires
        0 <= k < values.len(),
        forall|i: int| 0 <= i < k ==> value_read(#[trigger] values[i]) is Ok,
        value_read(values[k]) is Err,
    ensures
        read_values_as(values, name) == Err::<Seq<InstanceView>, Seq<char>>(
            value_read(values[k])->Err_0,
        ),
{
    let before = values.take(k);
    assert forall|i: int| 0 <= i < before.len() implies value_read(#[trigger] before[i]) is Ok by {
        assert(before[i] == values[i]);
    }
    each_value_of_the_name_is_read_once(before, name);
    assert(values.take(k + 1).drop_last() =~= before);
    assert(values.take(k + 1).last() == values[k]);
    lemma_reading_fails(values, name, k + 1);
}

/// Of some announcements those with the name asked for are found, each once
/// and in their order, and no other; all of them where no name is asked for.
pub proof fn each_announcement_of_the_name_is_found(
    written: Seq<RegistrationView>,
    name: Option<Seq<char>>,
)
    ensures
        crate::listing::picks(
            announced_as(written, name),
            written,
            |r: RegistrationView| name matches Some(n) ==> r.instance.name == n,
            |r: RegistrationView| r.instance,
        ),
    decreases written.len(),
{
    let wanted = |r: RegistrationView| name matches Some(n) ==> r.instance.name == n;
    let instance = |r: RegistrationView| r.instance;
    if written.len() == 0 {
        crate::listing::nothing_is_picked(announced_as(written, name), written, wanted, instance);
    } else {
        let head = written.drop_last();
        each_announcement_of_the_name_is_found(head, name);
        crate::listing::picking_one_more(announced_as(head, name), written, wanted, instance);
    }
}

/// A field that can be read is read as it is, one that is absent or `null` as
/// empty, and a missing text in a list as an empty one; a field that cannot be
/// read makes the whole unreadable, and of several the first counts in the order
/// id, name, version, endpoints.
pub proof fn fields_are_read_one_by_one(
    id: Result<Option<Seq<char>>, Seq<char>>,
    name: Result<Option<Seq<char>>, Seq<char>>,
    version: Result<Option<Seq<char>>, Seq<char>>,
    endpoints: Result<Option<Seq<Option<Seq<char>>>>, Seq<char>>,
)
    ensures
        assembled(id, name, version, endpoints) is Ok <==> id is Ok && name is Ok && version is Ok
            && endpoints is Ok,
        assembled(id, name, version, endpoints) matches Ok(i) ==> {
            &&& id->Ok_0 is Some ==> i.id == id->Ok_0->0
            &&& id->Ok_0 is None ==> i.id.len() == 0
            &&& name->Ok_0 is Some ==> i.name == name->Ok_0->0
            &&& name->Ok_0 is None ==> i.name.len() == 0
            &&& version->Ok_0 is Some ==> i.version == version->Ok_0->0
            &&& version->Ok_0 is None ==> i.version.len() == 0
            &&& endpoints->Ok_0 is None ==> i.endpoints.len() == 0
            &&& endpoints->Ok_0 matches Some(l) ==> i.endpoints.len() == l.len() && forall|k: int|
                #![trigger l[k]]
                0 <= k < l.len() ==> (l[k] matches Some(e) ==> i.endpoints[k] == e) && (l[k] is None
                    ==> i.endpoints[k].len() == 0)
        },
        assembled(id, name, version, endpoints) matches Err(e) ==> {
            ||| id is Err && e == "registry wire parse: "@ + id->Err_0
            ||| id is Ok && name is Err && e == "registry wire parse: "@ + name->Err_0
            ||| id is Ok && name is Ok && version is Err && e == "registry wire parse: "@
                + version->Err_0
            ||| id is Ok && name is Ok && version is Ok && endpoints is Err && e
                == "registry wire parse: "@ + endpoints->Err_0
        },
{
}

/// Of a stored value each field is read by its own name, and one that is not
/// there is empty; `null` is an instance with every field empty, and what is no
/// value of this kind is not read.
pub proof fn stored_fields_are_read_by_name(data: Seq<char>)
    ensures
        match crate::json::json_members(data) {
            Err(e) => parsed(data) == Err::<InstanceView, Seq<char>>(
                "registry wire parse: "@ + e,
            ),
            Ok(None) => parsed(data) matches Ok(i) && i.id.len() == 0 && i.name.len() == 0
                && i.version.len() == 0 && i.endpoints.len() == 0,
            Ok(Some(m)) => parsed(data) matches Ok(i) ==> {
                &&& !m.contains_key("id"@) ==> i.id.len() == 0
                &&& !m.contains_key("name"@) ==> i.name.len() == 0
                &&& !m.contains_key("version"@) ==> i.version.len() == 0
                &&& !m.contains_key("endpoints"@) ==> i.endpoints.len() == 0
                &&& m.contains_key("id"@) ==> match crate::json::json_as_opt_text(m["id"@]) {
                    Ok(Some(s)) => i.id == s,
                    Ok(None) => i.id.len() == 0,
                    Err(_) => false,
                }
                &&& m.contains_key("name"@) ==> match crate::json::json_as_opt_text(m["name"@]) {
                    Ok(Some(s)) => i.name == s,
                    Ok(None) => i.name.len() == 0,
                    Err(_) => false,
                }
                &&& m.contains_key("version"@) ==> match crate::json::json_as_opt_text(
                    m["version"@],
                ) {
                    Ok(Some(s)) => i.version == s,
                    Ok(None) => i.version.len() == 0,
                    Err(_) => false,
                }
                &&& m.contains_key("endpoints"@) ==> match crate::json::json_as_opt_texts(
                    m["endpoints"@],
                ) {
                    Ok(Some(l)) => i.endpoints.len() == l.len(),
                    Ok(None) => i.endpoints.len() == 0,
                    Err(_) => false,
                }
            },
        },
{
}

/// A handle that keeps one registration alive: it holds what has to be called
/// to give the registration up, until that has been called.
pub struct RegistrationHandle<F> {
    cancel: Option<F>,
}

/// How often the cancellation is called when a handle is cancelled a number of
/// times.
pub open spec fn calls_made<F>(pending: Option<F>, cancels: nat) -> nat
    decreases cancels,
{
    if cancels == 0 {
        0
    } else {
        let rest = calls_made(None::<F>, (cancels - 1) as nat);
        if pending is Some {
            rest + 1
        } else {
            rest
        }
    }
}

/// Giving a handle up cancels it once more. So the cancellation of a handle is
/// called exactly once in all, however often the handle is cancelled before;
/// and not before it is cancelled or given up.
pub proof fn cancellation_is_called_once<F>(cancel: F, cancels: nat)
    ensures
        calls_made(Some(cancel), 0) == 0,
        calls_made(Some(cancel), cancels + 1) == 1,
        calls_made(None::<F>, cancels) == 0,
    decreases cancels,
{
    if cancels > 0 {
        cancellation_is_called_once(cancel, (cancels - 1) as nat);
    }
    assert((cancels + 1 - 1) as nat == cancels);
    assert(calls_made(Some(cancel), cancels + 1) == calls_made(None::<F>, cancels) + 1);
}

impl<F> RegistrationHandle<F> {
    /// What is still to be called.
    pub closed spec fn pending(&self) -> Option<F> {
        self.cancel
    }
}

impl<F: FnOnce()> RegistrationHandle<F> {
    /// Wraps a cancellation.
    pub fn from_cancel(cancel: F) -> (h: RegistrationHandle<F>)
        ensures
            h.pending() == Some(cancel),
    {
        RegistrationHandle { cancel: Some(cancel) }
    }

    /// Calls the cancellation, the first time; afterwards nothing is left to
    /// call.
    pub fn cancel(&mut self)
        requires
            old(self).pending() matches Some(f) ==> f.requires(()),
        ensures
            final(self).pending() is None,
            old(self).pending() matches Some(f) ==> f.ensures((), ()),
            forall|later: nat|
                calls_made(old(self).pending(), later + 1) == #[trigger] calls_made(
                    final(self).pending(),
                    later,
                ) + (if old(self).pending() is Some {
                    1nat
                } else {
                    0nat
                }),
    {
        if let Some(cancel) = self.cancel.take() {
            cancel();
        }
    }

    /// Gives the handle up: the cancellation is called, unless it has been.
    pub fn release(self)
        requires
            self.pending() matches Some(f) ==> f.requires(()),
        ensures
            self.pending() matches Some(f) ==> f.ensures((), ()),
    {
        let mut last = self;
        last.cancel();
    }
}

/// How a backend answered a request that asks for nothing back.
pub enum Reply {
    /// The request did not get through.
    Lost(String),
    /// The backend answered with a status other than success.
    Refused(String),
    /// The backend did what was asked.
    Done,
}

/// What a reply to the request called `context` means for the caller.
pub fn settle(context: &str, reply: Reply) -> (r: Result<(), RegistryError>)
    ensures
        match reply {
            Reply::Lost(e) => failed(r, context@ + ": "@ + e@),
            Reply::Refused(status) => failed(r, context@ + ": HTTP "@ + status@),
            Reply::Done => r is Ok,
        },
{
    match reply {
        Reply::Lost(e) => Err(RegistryError::Failed(crate::text::cat3(context, ": ", e.as_str()))),
        Reply::Refused(status) => Err(
            RegistryError::Failed(crate::text::cat3(context, ": HTTP ", status.as_str())),
        ),
        Reply::Done => Ok(()),
    }
}

} // verus!
