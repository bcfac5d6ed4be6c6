//! ServiceComb service-center: the microservice that a process registers
//! under, its instances, and the watch over a re-dialled stream of events.
//!
//! A process has one microservice, named after its first registration. It is
//! created, or looked up where it exists already; instances then register
//! under its id.
use vstd::prelude::*;

use crate::json::{push_member, push_text, write_object, write_texts};
use crate::registry::{copy_texts, Instance, Registration, RegistryError};
use crate::string_map::StringMap;
use crate::random::random_bytes;
use crate::text::{
    cat, cat3, contains, decimal_text, push_hex_byte, replace_first, same, trim_end_slashes,
};

verus! {

/// How often an instance's heartbeat is sent, in seconds.
pub const HEARTBEAT_SECS: u64 = 30;

/// The longest wait before a watch is dialled again, in seconds.
pub const WATCH_BACKOFF_CAP_SECS: u64 = 30;

/// The project segment of the registry's paths.
pub const DEFAULT_PROJECT: &'static str = "default";

/// The name of the framework that a microservice declares.
pub const FRAMEWORK_NAME: &'static str = "wind";

/// The version of the framework that a microservice declares.
pub const FRAMEWORK_VERSION: &'static str = "v2";

/// The error code of a microservice that exists already.
pub const ERR_SERVICE_ALREADY_EXISTS: &'static str = "400010";

/// What a microservice is created and looked up by, beside its name.
#[derive(Debug)]
pub struct ServicecombOptions {
    /// The application id.
    pub app_id: String,
    /// The environment.
    pub environment: String,
}

impl Clone for ServicecombOptions {
    fn clone(&self) -> (r: Self)
        ensures
            r.app_id@ == self.app_id@,
            r.environment@ == self.environment@,
    {
        ServicecombOptions {
            app_id: self.app_id.clone(),
            environment: self.environment.clone(),
        }
    }
}

/// The settings that a service-center registry is made from.
#[derive(Debug)]
pub struct ServicecombSettings {
    /// The service-center's address.
    pub addr: String,
    /// The application id; where it is absent, the process environment gives it.
    pub app_id: Option<String>,
    /// The environment; where it is absent, the process environment gives it.
    pub environment: Option<String>,
}

fn text_or(text: Option<String>, otherwise: &str) -> (s: String)
    ensures
        s@ == match text {
            Some(t) => t@,
            None => otherwise@,
        },
{
    match text {
        Some(t) => t,
        None => otherwise.to_owned(),
    }
}

impl ServicecombOptions {
    /// The options that the variables of the process environment give.
    pub fn from_environment(application: Option<String>, environment: Option<String>) -> (r: Self)
        ensures
            r.app_id@ == match application {
                Some(t) => t@,
                None => "default"@,
            },
            r.environment@ == match environment {
                Some(t) => t@,
                None => ""@,
            },
    {
        ServicecombOptions {
            app_id: text_or(application, "default"),
            environment: text_or(environment, ""),
        }
    }

    /// These options with what the settings give in their place.
    pub fn overridden(self, app_id: Option<String>, environment: Option<String>) -> (r: Self)
        ensures
            r.app_id@ == match app_id {
                Some(t) => t@,
                None => self.app_id@,
            },
            r.environment@ == match environment {
                Some(t) => t@,
                None => self.environment@,
            },
    {
        ServicecombOptions {
            app_id: text_or(app_id, self.app_id.as_str()),
            environment: text_or(environment, self.environment.as_str()),
        }
    }
}

/// A byte that stands for itself in a URL.
pub open spec fn is_unreserved(b: u8) -> bool {
    (65 <= b && b <= 90) || (97 <= b && b <= 122) || (48 <= b && b <= 57) || b == 45 || b == 95
        || b == 46 || b == 126
}

/// A byte as it stands in a URL.
pub open spec fn encoded_byte(b: u8) -> Seq<char> {
    if is_unreserved(b) {
        seq![b as char]
    } else {
        seq!['%'] + crate::text::hex_byte(b, true)
    }
}

/// Bytes as they stand in a URL.
pub open spec fn encoded(bytes: Seq<u8>) -> Seq<char>
    decreases bytes.len(),
{
    if bytes.len() == 0 {
        Seq::empty()
    } else {
        encoded(bytes.drop_last()) + encoded_byte(bytes.last())
    }
}

/// A text as it stands in a URL.
pub open spec fn url_encoded(s: Seq<char>) -> Seq<char> {
    encoded(vstd::utf8::encode_utf8(s))
}

/// Percent-encodes the bytes of a text, letters, digits and `-_.~` aside.
pub fn urlencode(value: &str) -> (r: String)
    ensures
        r@ == url_encoded(value@),
{
    let bytes = value.as_bytes();
    let ghost all = vstd::utf8::encode_utf8(value@);
    let mut r: String = String::new();
    let mut i: usize = 0;
    assert(all.take(0) =~= Seq::<u8>::empty());
    while i < bytes.len()
        invariant
            bytes@ == all,
            i <= bytes@.len(),
            r@ == encoded(all.take(i as int)),
        decreases bytes@.len() - i,
    {
        let b: u8 = bytes[i];
        let ghost before = r@;
        if (65 <= b && b <= 90) || (97 <= b && b <= 122) || (48 <= b && b <= 57) || b == 45 || b
            == 95 || b == 46 || b == 126 {
            r.push(b as char);
        } else {
            r.push('%');
            push_hex_byte(&mut r, b, true);
        }
        i += 1;
        proof {
            assert(all.take(i as int).drop_last() =~= all.take(i - 1));
            assert(all.take(i as int).last() == b);
            assert(r@ =~= before + encoded_byte(b));
        }
    }
    assert(all.take(i as int) =~= all);
    r
}

/// The value of a hexadecimal digit in upper case.
pub open spec fn hex_value(c: char) -> int {
    if 'A' <= c {
        c as int - 'A' as int + 10
    } else {
        c as int - '0' as int
    }
}

/// The bytes that a percent-encoded text stands for.
pub open spec fn decoded(s: Seq<char>) -> Seq<u8>
    decreases s.len(),
{
    if s.len() == 0 {
        Seq::empty()
    } else if s[0] == '%' && s.len() >= 3 {
        seq![(hex_value(s[1]) * 16 + hex_value(s[2])) as u8] + decoded(s.skip(3))
    } else {
        seq![s[0] as u8] + decoded(s.skip(1))
    }
}

proof fn lemma_decoded_append(head: Seq<u8>, tail: Seq<char>)
    ensures
        decoded(encoded(head) + tail) == head + decoded(tail),
    decreases head.len(),
{
    if head.len() == 0 {
        assert(encoded(head) + tail =~= tail);
        assert(head + decoded(tail) =~= decoded(tail));
    } else {
        let b = head.last();
        let piece = encoded_byte(b);
        let rest = piece + tail;
        lemma_decoded_append(head.drop_last(), rest);
        assert(encoded(head) + tail =~= encoded(head.drop_last()) + rest);
        assert(decoded(rest) =~= seq![b] + decoded(tail)) by {
            if is_unreserved(b) {
                assert(rest[0] == b as char);
                assert(rest[0] != '%');
                assert(rest.skip(1) =~= tail);
            } else {
                assert(rest[0] == '%');
                assert(rest[1] == crate::text::hex_digit(b as nat / 16, true));
                assert(rest[2] == crate::text::hex_digit(b as nat % 16, true));
                assert(rest.skip(3) =~= tail);
                assert(hex_value(rest[1]) == b as nat / 16);
                assert(hex_value(rest[2]) == b as nat % 16);
                assert((b as nat / 16) * 16 + b as nat % 16 == b as nat);
            }
        }
        assert(head.drop_last() + (seq![b] + decoded(tail)) =~= head + decoded(tail));
    }
}

/// A percent-encoded text decodes to the text's own bytes; so two texts with
/// one encoding are the same text.
pub proof fn encoding_decodes(s: Seq<char>, t: Seq<char>)
    ensures
        decoded(url_encoded(s)) == vstd::utf8::encode_utf8(s),
        url_encoded(s) == url_encoded(t) ==> s == t,
{
    let empty = Seq::<char>::empty();
    lemma_decoded_append(vstd::utf8::encode_utf8(s), empty);
    lemma_decoded_append(vstd::utf8::encode_utf8(t), empty);
    assert(url_encoded(s) + empty =~= url_encoded(s));
    assert(url_encoded(t) + empty =~= url_encoded(t));
    assert(vstd::utf8::encode_utf8(s) + decoded(empty) =~= vstd::utf8::encode_utf8(s));
    assert(vstd::utf8::encode_utf8(t) + decoded(empty) =~= vstd::utf8::encode_utf8(t));
    if url_encoded(s) == url_encoded(t) {
        vstd::utf8::encode_utf8_decode_utf8(s);
        vstd::utf8::encode_utf8_decode_utf8(t);
    }
}

/// Each byte is encoded by itself: letters, digits and `-`, `_`, `.`, `~` as
/// they are, every other one as a percent sign and its two hexadecimal digits
/// in upper case.
pub proof fn bytes_are_encoded_one_by_one(head: Seq<u8>, b: u8, tail: Seq<u8>)
    ensures
        encoded(head + tail) == encoded(head) + encoded(tail),
        ({
            let plain = ('a' as int <= b as int <= 'z' as int) || ('A' as int <= b as int
                <= 'Z' as int) || ('0' as int <= b as int <= '9' as int) || b as int == '-' as int
                || b as int == '_' as int || b as int == '.' as int || b as int == '~' as int;
            let one = encoded(seq![b]);
            &&& plain ==> one.len() == 1 && one[0] as int == b
            &&& !plain ==> one == seq!['%'] + crate::text::hex_byte(b, true)
        }),
    decreases tail.len(),
{
    assert(seq![b].drop_last() =~= Seq::<u8>::empty());
    assert(encoded(seq![b].drop_last()) =~= Seq::<char>::empty());
    assert(encoded(seq![b]) =~= encoded_byte(b));
    if tail.len() == 0 {
        assert(head + tail =~= head);
        assert(encoded(head) + encoded(tail) =~= encoded(head));
    } else {
        bytes_are_encoded_one_by_one(head, b, tail.drop_last());
        assert((head + tail).drop_last() =~= head + tail.drop_last());
        assert((head + tail).last() == tail.last());
        assert(encoded(head + tail) =~= encoded(head) + encoded(tail));
    }
}

proof fn lemma_encoded_is_plain(bytes: Seq<u8>)
    ensures
        !encoded(bytes).contains('&'),
    decreases bytes.len(),
{
    if bytes.len() > 0 {
        let (rest, b) = (bytes.drop_last(), bytes.last());
        lemma_encoded_is_plain(rest);
        let all = encoded(bytes);
        assert forall|i: int| 0 <= i < all.len() implies all[i] != '&' by {
            if i < encoded(rest).len() {
                assert(encoded(rest).contains(encoded(rest)[i]));
            } else {
                assert(all[i] == encoded_byte(b)[i - encoded(rest).len()]);
            }
        }
    }
}

/// Two texts that are cut apart by one mark in the same place are equal piece
/// by piece.
proof fn lemma_same_pieces(a: Seq<char>, b: Seq<char>, mark: Seq<char>, x: Seq<char>, y: Seq<char>)
    requires
        mark.len() > 0,
        mark[0] == '&',
        !a.contains('&'),
        !x.contains('&'),
        a + mark + b == x + mark + y,
    ensures
        a == x,
        b == y,
{
    let (s, t) = (a + mark + b, x + mark + y);
    assert(a.len() == x.len()) by {
        if a.len() < x.len() {
            assert(s[a.len() as int] == '&');
            assert(t[a.len() as int] == x[a.len() as int]);
            assert(x.contains(x[a.len() as int]));
        }
        if x.len() < a.len() {
            assert(t[x.len() as int] == '&');
            assert(s[x.len() as int] == a[x.len() as int]);
            assert(a.contains(a[x.len() as int]));
        }
    }
    assert(a =~= s.take(a.len() as int));
    assert(x =~= t.take(x.len() as int));
    assert(b =~= s.skip((a.len() + mark.len()) as int));
    assert(y =~= t.skip((x.len() + mark.len()) as int));
}

/// The hexadecimal digits of some bytes, in lower case.
pub open spec fn hex_text(bytes: Seq<u8>) -> Seq<char>
    decreases bytes.len(),
{
    if bytes.len() == 0 {
        Seq::empty()
    } else {
        hex_text(bytes.drop_last()) + crate::text::hex_byte(bytes.last(), false)
    }
}

/// A hexadecimal digit in lower case.
pub open spec fn is_lower_hex(c: char) -> bool {
    ('0' <= c && c <= '9') || ('a' <= c && c <= 'f')
}

/// Bytes in hexadecimal are two lower-case digits each.
pub proof fn hex_text_is_lower_hex(bytes: Seq<u8>)
    ensures
        hex_text(bytes).len() == 2 * bytes.len(),
        forall|i: int|
            0 <= i < hex_text(bytes).len() ==> is_lower_hex(#[trigger] hex_text(bytes)[i]),
    decreases bytes.len(),
{
    if bytes.len() > 0 {
        let b = bytes.last();
        hex_text_is_lower_hex(bytes.drop_last());
        assert(is_lower_hex(crate::text::hex_digit(b as nat / 16, false)));
        assert(is_lower_hex(crate::text::hex_digit(b as nat % 16, false)));
    }
}

/// Bytes in hexadecimal are those of each byte, one after the other, and say
/// the bytes again: two texts that are equal are of the same bytes.
pub proof fn bytes_are_written_one_by_one(head: Seq<u8>, b: u8, tail: Seq<u8>)
    ensures
        hex_text(head + tail) == hex_text(head) + hex_text(tail),
        hex_text(seq![b]) == crate::text::hex_byte(b, false),
        hex_text(head) == hex_text(tail) ==> head == tail,
    decreases tail.len(),
{
    assert(seq![b].drop_last() =~= Seq::<u8>::empty());
    assert(hex_text(seq![b].drop_last()) =~= Seq::<char>::empty());
    assert(hex_text(seq![b]) =~= crate::text::hex_byte(b, false));
    if tail.len() == 0 {
        assert(head + tail =~= head);
        assert(hex_text(head) + hex_text(tail) =~= hex_text(head));
    } else {
        bytes_are_written_one_by_one(head, b, tail.drop_last());
        assert((head + tail).drop_last() =~= head + tail.drop_last());
        assert((head + tail).last() == tail.last());
        assert(hex_text(head + tail) =~= hex_text(head) + hex_text(tail));
    }
    hex_text_is_lower_hex(head);
    hex_text_is_lower_hex(tail);
    if hex_text(head) == hex_text(tail) {
        lemma_hex_is_of_its_bytes(head, tail);
    }
}

proof fn lemma_hex_is_of_its_bytes(a: Seq<u8>, b: Seq<u8>)
    requires
        hex_text(a) == hex_text(b),
    ensures
        a == b,
    decreases a.len(),
{
    hex_text_is_lower_hex(a);
    hex_text_is_lower_hex(b);
    if a.len() == 0 {
        assert(a =~= b);
    } else {
        let (p, q) = (hex_text(a.drop_last()), hex_text(b.drop_last()));
        hex_text_is_lower_hex(a.drop_last());
        hex_text_is_lower_hex(b.drop_last());
        let n = p.len() as int;
        let (x, y) = (
            crate::text::hex_byte(a.last(), false),
            crate::text::hex_byte(b.last(), false),
        );
        assert(hex_text(a).take(n) =~= p);
        assert(hex_text(b).take(n) =~= q);
        assert(hex_text(a).skip(n) =~= x);
        assert(hex_text(b).skip(n) =~= y);
        crate::text::hex_digits_say_the_byte(a.last(), false);
        crate::text::hex_digits_say_the_byte(b.last(), false);
        lemma_hex_is_of_its_bytes(a.drop_last(), b.drop_last());
        assert(a =~= a.drop_last().push(a.last()));
        assert(b =~= b.drop_last().push(b.last()));
    }
}

/// Writes some bytes in hexadecimal.
pub fn hex_id(bytes: &Vec<u8>) -> (r: String)
    ensures
        r@ == hex_text(bytes@),
        r@.len() == 2 * bytes@.len(),
{
    let mut r: String = String::new();
    let mut i: usize = 0;
    assert(bytes@.take(0) =~= Seq::<u8>::empty());
    while i < bytes.len()
        invariant
            i <= bytes@.len(),
            r@ == hex_text(bytes@.take(i as int)),
            r@.len() == 2 * i,
        decreases bytes@.len() - i,
    {
        push_hex_byte(&mut r, bytes[i], false);
        i += 1;
        assert(bytes@.take(i as int).drop_last() =~= bytes@.take(i - 1));
    }
    assert(bytes@.take(i as int) =~= bytes@);
    r
}

/// A fresh instance id: sixteen random bytes in hexadecimal.
pub fn random_instance_id() -> (r: String)
    ensures
        exists|bytes: Seq<u8>| bytes.len() == 16 && r@ == #[trigger] hex_text(bytes),
        r@.len() == 32,
{
    let bytes = random_bytes(16);
    hex_id(&bytes)
}

/// The address of a service's instance list under an environment.
pub open spec fn find_text(
    base: Seq<char>,
    app_id: Seq<char>,
    environment: Seq<char>,
    service_name: Seq<char>,
) -> Seq<char> {
    root_text(base) + "/instances?appId="@ + url_encoded(app_id) + "&serviceName="@ + url_encoded(
        service_name,
    ) + "&version=&env="@ + url_encoded(environment)
}

/// Under different environments different lists are asked for.
pub proof fn environments_are_asked_apart(
    base: Seq<char>,
    app_id: Seq<char>,
    service_name: Seq<char>,
    environment: Seq<char>,
    other: Seq<char>,
)
    ensures
        find_text(base, app_id, environment, service_name) == find_text(
            base,
            app_id,
            other,
            service_name,
        ) ==> environment == other,
{
    let a = find_text(base, app_id, environment, service_name);
    let b = find_text(base, app_id, other, service_name);
    let head = root_text(base) + "/instances?appId="@ + url_encoded(app_id) + "&serviceName="@
        + url_encoded(service_name) + "&version=&env="@;
    if a == b {
        assert(a.skip(head.len() as int) =~= url_encoded(environment));
        assert(b.skip(head.len() as int) =~= url_encoded(other));
        encoding_decodes(environment, other);
    }
}

/// The address of a list tells the application, the environment and the service
/// apart: two addresses at one service-center are equal only where all three
/// are.
pub proof fn lists_are_asked_apart(
    base: Seq<char>,
    app_ids: (Seq<char>, Seq<char>),
    environments: (Seq<char>, Seq<char>),
    service_names: (Seq<char>, Seq<char>),
)
    ensures
        find_text(base, app_ids.0, environments.0, service_names.0) == find_text(
            base,
            app_ids.1,
            environments.1,
            service_names.1,
        ) ==> app_ids.0 == app_ids.1 && environments.0 == environments.1 && service_names.0
            == service_names.1,
        (root_text(base) + "/instances?"@).is_prefix_of(
            find_text(base, app_ids.0, environments.0, service_names.0),
        ),
{
    reveal_strlit("/instances?");
    reveal_strlit("/instances?appId=");
    reveal_strlit("&serviceName=");
    reveal_strlit("&version=&env=");
    let s = find_text(base, app_ids.0, environments.0, service_names.0);
    let t = find_text(base, app_ids.1, environments.1, service_names.1);
    let head = root_text(base) + "/instances?appId="@;
    let start = root_text(base) + "/instances?"@;
    assert("/instances?appId="@.take(11) =~= "/instances?"@);
    assert(s.take(start.len() as int) =~= start) by {
        assert forall|i: int| 0 <= i < 11 implies "/instances?appId="@[i] == "/instances?"@[i] by {
            assert("/instances?appId="@.take(11)[i] == "/instances?"@[i]);
        }
    }
    if s == t {
        let (a, b, c) = (
            url_encoded(app_ids.0),
            url_encoded(service_names.0),
            url_encoded(environments.0),
        );
        let (x, y, z) = (
            url_encoded(app_ids.1),
            url_encoded(service_names.1),
            url_encoded(environments.1),
        );
        lemma_encoded_is_plain(vstd::utf8::encode_utf8(app_ids.0));
        lemma_encoded_is_plain(vstd::utf8::encode_utf8(app_ids.1));
        lemma_encoded_is_plain(vstd::utf8::encode_utf8(service_names.0));
        lemma_encoded_is_plain(vstd::utf8::encode_utf8(service_names.1));
        assert(s.skip(head.len() as int) =~= a + "&serviceName="@ + (b + "&version=&env="@ + c));
        assert(t.skip(head.len() as int) =~= x + "&serviceName="@ + (y + "&version=&env="@ + z));
        lemma_same_pieces(
            a,
            b + "&version=&env="@ + c,
            "&serviceName="@,
            x,
            y + "&version=&env="@ + z,
        );
        lemma_same_pieces(b, c, "&version=&env="@, y, z);
        encoding_decodes(app_ids.0, app_ids.1);
        encoding_decodes(service_names.0, service_names.1);
        encoding_decodes(environments.0, environments.1);
    }
}

/// The address under which a microservice is looked up tells the application,
/// the name, the version and the environment apart.
pub proof fn services_are_looked_up_apart<T>(a: ServicecombRegistry<T>, b: ServicecombRegistry<T>)
    requires
        a.base@ == b.base@,
    ensures
        a.existence_text() == b.existence_text() ==> a.app_id@ == b.app_id@ && a.name_hint()
            == b.name_hint() && a.version_hint() == b.version_hint() && a.environment@
            == b.environment@,
{
    reveal_strlit("/existence?type=microservice&appId=");
    reveal_strlit("&serviceName=");
    reveal_strlit("&version=");
    reveal_strlit("&env=");
    let (s, t) = (a.existence_text(), b.existence_text());
    let head = root_text(a.base@) + "/existence?type=microservice&appId="@;
    if s == t {
        let (p, q, r, e) = (
            url_encoded(a.app_id@),
            url_encoded(a.name_hint()),
            url_encoded(a.version_hint()),
            url_encoded(a.environment@),
        );
        let (w, x, y, z) = (
            url_encoded(b.app_id@),
            url_encoded(b.name_hint()),
            url_encoded(b.version_hint()),
            url_encoded(b.environment@),
        );
        lemma_encoded_is_plain(vstd::utf8::encode_utf8(a.app_id@));
        lemma_encoded_is_plain(vstd::utf8::encode_utf8(b.app_id@));
        lemma_encoded_is_plain(vstd::utf8::encode_utf8(a.name_hint()));
        lemma_encoded_is_plain(vstd::utf8::encode_utf8(b.name_hint()));
        lemma_encoded_is_plain(vstd::utf8::encode_utf8(a.version_hint()));
        lemma_encoded_is_plain(vstd::utf8::encode_utf8(b.version_hint()));
        let (s2, t2) = (q + "&version="@ + (r + "&env="@ + e), x + "&version="@ + (y + "&env="@ + z));
        assert(s.skip(head.len() as int) =~= p + "&serviceName="@ + s2);
        assert(t.skip(head.len() as int) =~= w + "&serviceName="@ + t2);
        lemma_same_pieces(p, s2, "&serviceName="@, w, t2);
        lemma_same_pieces(q, r + "&env="@ + e, "&version="@, x, y + "&env="@ + z);
        lemma_same_pieces(r, e, "&env="@, y, z);
        encoding_decodes(a.app_id@, b.app_id@);
        encoding_decodes(a.name_hint(), b.name_hint());
        encoding_decodes(a.version_hint(), b.version_hint());
        encoding_decodes(a.environment@, b.environment@);
    }
}

/// The state of a service-center registry. `T` is whatever stands for a
/// running heartbeat task.
pub struct ServicecombRegistry<T> {
    pub base: String,
    pub app_id: String,
    pub environment: String,
    /// The name of the process's microservice, once there is one.
    pub service_name: Option<String>,
    /// The version of the process's microservice, once there is one.
    pub service_version: Option<String>,
    /// The id of the process's microservice, once it is known.
    pub self_service_id: Option<String>,
    /// Heartbeat tasks by instance id.
    pub heartbeat_tasks: StringMap<T>,
}

/// The request that creates a microservice.
#[derive(Debug)]
pub struct CreateService {
    pub url: String,
    pub app_id: String,
    pub service_name: String,
    pub version: String,
    pub framework_name: String,
    pub framework_version: String,
}

/// The body of a request that creates a microservice; members stand in the
/// order of their names.
pub open spec fn create_text(
    app_id: Seq<char>,
    service_name: Seq<char>,
    version: Seq<char>,
    framework_name: Seq<char>,
    framework_version: Seq<char>,
) -> Seq<char> {
    crate::json::object_text(
        seq![
            (
                "service"@,
                crate::json::object_text(
                    seq![
                        ("appId"@, crate::json::json_quoted(app_id)),
                        (
                            "framework"@,
                            crate::json::object_text(
                                seq![
                                    ("name"@, crate::json::json_quoted(framework_name)),
                                    ("version"@, crate::json::json_quoted(framework_version)),
                                ],
                            ),
                        ),
                        ("serviceName"@, crate::json::json_quoted(service_name)),
                        ("version"@, crate::json::json_quoted(version)),
                    ],
                ),
            ),
        ],
    )
}

impl CreateService {
    /// Writes the body of the request as JSON.
    pub fn body(&self) -> (s: String)
        ensures
            s@ == create_text(
                self.app_id@,
                self.service_name@,
                self.version@,
                self.framework_name@,
                self.framework_version@,
            ),
    {
        let mut framework: Vec<(String, String)> = Vec::new();
        push_text(&mut framework, "name", self.framework_name.as_str());
        push_text(&mut framework, "version", self.framework_version.as_str());
        assert(crate::json::pair_texts(framework@) =~= seq![
            ("name"@, crate::json::json_quoted(self.framework_name@)),
            ("version"@, crate::json::json_quoted(self.framework_version@)),
        ]);
        let mut service: Vec<(String, String)> = Vec::new();
        push_text(&mut service, "appId", self.app_id.as_str());
        push_member(&mut service, "framework", write_object(&framework));
        push_text(&mut service, "serviceName", self.service_name.as_str());
        push_text(&mut service, "version", self.version.as_str());
        assert(crate::json::pair_texts(service@) =~= seq![
            ("appId"@, crate::json::json_quoted(self.app_id@)),
            ("framework"@, crate::json::object_text(crate::json::pair_texts(framework@))),
            ("serviceName"@, crate::json::json_quoted(self.service_name@)),
            ("version"@, crate::json::json_quoted(self.version@)),
        ]);
        let mut outer: Vec<(String, String)> = Vec::new();
        push_member(&mut outer, "service", write_object(&service));
        assert(crate::json::pair_texts(outer@) =~= seq![
            ("service"@, crate::json::object_text(crate::json::pair_texts(service@))),
        ]);
        write_object(&outer)
    }
}

/// The body of a request that registers an instance; members stand in the
/// order of their names.
pub open spec fn instance_text(r: InstanceRequest) -> Seq<char> {
    crate::json::object_text(
        seq![
            (
                "instance"@,
                crate::json::object_text(
                    seq![
                        (
                            "endpoints"@,
                            crate::json::json_texts(crate::text::texts(r.endpoints@)),
                        ),
                        ("hostName"@, crate::json::json_quoted(r.host_name@)),
                        ("instanceId"@, crate::json::json_quoted(r.instance_id@)),
                        (
                            "properties"@,
                            crate::json::object_text(
                                seq![
                                    ("appId"@, crate::json::json_quoted(r.app_id@)),
                                    ("environment"@, crate::json::json_quoted(r.environment@)),
                                ],
                            ),
                        ),
                        ("serviceId"@, crate::json::json_quoted(r.service_id@)),
                        ("version"@, crate::json::json_quoted(r.version@)),
                    ],
                ),
            ),
        ],
    )
}

impl InstanceRequest {
    /// Writes the body of the request as JSON.
    pub fn body(&self) -> (s: String)
        ensures
            s@ == instance_text(*self),
    {
        let mut properties: Vec<(String, String)> = Vec::new();
        push_text(&mut properties, "appId", self.app_id.as_str());
        push_text(&mut properties, "environment", self.environment.as_str());
        assert(crate::json::pair_texts(properties@) =~= seq![
            ("appId"@, crate::json::json_quoted(self.app_id@)),
            ("environment"@, crate::json::json_quoted(self.environment@)),
        ]);
        let mut instance: Vec<(String, String)> = Vec::new();
        push_member(&mut instance, "endpoints", write_texts(&self.endpoints));
        push_text(&mut instance, "hostName", self.host_name.as_str());
        push_text(&mut instance, "instanceId", self.instance_id.as_str());
        push_member(&mut instance, "properties", write_object(&properties));
        push_text(&mut instance, "serviceId", self.service_id.as_str());
        push_text(&mut instance, "version", self.version.as_str());
        assert(crate::json::pair_texts(instance@) =~= seq![
            ("endpoints"@, crate::json::json_texts(crate::text::texts(self.endpoints@))),
            ("hostName"@, crate::json::json_quoted(self.host_name@)),
            ("instanceId"@, crate::json::json_quoted(self.instance_id@)),
            ("properties"@, crate::json::object_text(crate::json::pair_texts(properties@))),
            ("serviceId"@, crate::json::json_quoted(self.service_id@)),
            ("version"@, crate::json::json_quoted(self.version@)),
        ]);
        let mut outer: Vec<(String, String)> = Vec::new();
        push_member(&mut outer, "instance", write_object(&instance));
        assert(crate::json::pair_texts(outer@) =~= seq![
            ("instance"@, crate::json::object_text(crate::json::pair_texts(instance@))),
        ]);
        write_object(&outer)
    }
}

/// How the service-center answered a request.
#[derive(Debug)]
pub enum Answer {
    /// The request did not get through.
    Lost(String),
    /// The status and the body.
    Status(u16, String),
}

/// A status of success.
pub open spec fn is_success(status: u16) -> bool {
    200 <= status && status < 300
}

/// What answers a create request leads to.
#[derive(Debug)]
pub enum CreateStep {
    /// The microservice has this id.
    Have(String),
    /// The microservice exists already; it is to be looked up here.
    Lookup(String),
    /// It failed.
    Fail(RegistryError),
}

/// The request that registers an instance.
#[derive(Debug)]
pub struct InstanceRequest {
    pub url: String,
    pub instance_id: String,
    pub service_id: String,
    pub endpoints: Vec<String>,
    pub host_name: String,
    pub version: String,
    pub app_id: String,
    pub environment: String,
}

/// The root of the registry's paths.
pub open spec fn root_text(base: Seq<char>) -> Seq<char> {
    base + "/v4/"@ + DEFAULT_PROJECT@ + "/registry"@
}

/// The process's microservice has the name and the version that it was given;
/// before it was given any, they are `wind-service` and `1.0.0`.
pub proof fn given_name_goes_before_the_default<T>(registry: ServicecombRegistry<T>)
    ensures
        registry.service_name matches Some(n) ==> registry.name_hint() == n@,
        registry.service_name is None ==> registry.name_hint() == "wind-service"@,
        registry.service_version matches Some(v) ==> registry.version_hint() == v@,
        registry.service_version is None ==> registry.version_hint() == "1.0.0"@,
{
}

impl<T> ServicecombRegistry<T> {
    /// A registry on the service-center at `addr`.
    pub fn connect_with(addr: &str, options: ServicecombOptions) -> (r: Result<
        Self,
        RegistryError,
    >)
        ensures
            r matches Ok(registry) && registry.base@ == crate::text::without_trailing_slashes(
                addr@,
            ) && registry.app_id == options.app_id && registry.environment == options.environment
                && registry.service_name is None && registry.service_version is None
                && registry.self_service_id is None && registry.heartbeat_tasks@ == Map::<
                Seq<char>,
                T,
            >::empty(),
    {
        Ok(
            ServicecombRegistry {
                base: trim_end_slashes(addr),
                app_id: options.app_id,
                environment: options.environment,
                service_name: None,
                service_version: None,
                self_service_id: None,
                heartbeat_tasks: StringMap::new(),
            },
        )
    }

    /// The root of the registry's paths.
    pub fn registry_root(&self) -> (s: String)
        ensures
            s@ == root_text(self.base@),
    {
        let mut s: String = cat3(self.base.as_str(), "/v4/", DEFAULT_PROJECT);
        s.append("/registry");
        s
    }

    /// The name that the process's microservice has, or gets.
    pub open spec fn name_hint(&self) -> Seq<char> {
        match self.service_name {
            Some(n) => n@,
            None => "wind-service"@,
        }
    }

    /// The version that the process's microservice has, or gets.
    pub open spec fn version_hint(&self) -> Seq<char> {
        match self.service_version {
            Some(v) => v@,
            None => "1.0.0"@,
        }
    }

    /// The name that the process's microservice has, or gets.
    pub fn service_name_hint(&self) -> (s: String)
        ensures
            s@ == self.name_hint(),
    {
        match &self.service_name {
            Some(n) => n.clone(),
            None => "wind-service".to_owned(),
        }
    }

    /// The version that the process's microservice has, or gets.
    pub fn instance_version_hint(&self) -> (s: String)
        ensures
            s@ == self.version_hint(),
    {
        match &self.service_version {
            Some(v) => v.clone(),
            None => "1.0.0".to_owned(),
        }
    }

    /// Begins a registration: the first one names the process's microservice,
    /// for good. Hands back the request that creates the microservice.
    pub fn begin_register(&mut self, registration: &Registration) -> (r: CreateService)
        ensures
            final(self).name_hint() == match old(self).service_name {
                Some(n) => n@,
                None => registration@.instance.name,
            },
            final(self).version_hint() == match old(self).service_version {
                Some(v) => v@,
                None => registration@.instance.version,
            },
            final(self).service_name is Some,
            final(self).service_version is Some,
            final(self).base == old(self).base,
            final(self).app_id == old(self).app_id,
            final(self).environment == old(self).environment,
            final(self).self_service_id == old(self).self_service_id,
            final(self).heartbeat_tasks == old(self).heartbeat_tasks,
            r.url@ == root_text(old(self).base@) + "/microservices"@,
            r.app_id@ == old(self).app_id@,
            r.service_name@ == final(self).name_hint(),
            r.version@ == final(self).version_hint(),
            r.framework_name@ == FRAMEWORK_NAME@,
            r.framework_version@ == FRAMEWORK_VERSION@,
    {
        if self.service_name.is_none() {
            self.service_name = Some(registration.instance.name.clone());
        }
        if self.service_version.is_none() {
            self.service_version = Some(registration.instance.version.clone());
        }
        CreateService {
            url: cat(self.registry_root().as_str(), "/microservices"),
            app_id: self.app_id.clone(),
            service_name: self.service_name_hint(),
            version: self.instance_version_hint(),
            framework_name: FRAMEWORK_NAME.to_owned(),
            framework_version: FRAMEWORK_VERSION.to_owned(),
        }
    }

    /// The address under which the process's microservice is looked up.
    pub open spec fn existence_text(&self) -> Seq<char> {
        root_text(self.base@) + "/existence?type=microservice&appId="@ + url_encoded(self.app_id@)
            + "&serviceName="@ + url_encoded(self.name_hint()) + "&version="@ + url_encoded(
            self.version_hint(),
        ) + "&env="@ + url_encoded(self.environment@)
    }

    /// The address under which the process's microservice is looked up.
    pub fn existence_url(&self) -> (s: String)
        ensures
            s@ == self.existence_text(),
    {
        let mut s: String = self.registry_root();
        s.append("/existence?type=microservice&appId=");
        s.append(urlencode(self.app_id.as_str()).as_str());
        s.append("&serviceName=");
        s.append(urlencode(self.service_name_hint().as_str()).as_str());
        s.append("&version=");
        s.append(urlencode(self.instance_version_hint().as_str()).as_str());
        s.append("&env=");
        s.append(urlencode(self.environment.as_str()).as_str());
        s
    }

    /// Takes the answer to the create request, `created` being what a
    /// successful body was read as: the microservice's id is remembered; one
    /// that exists already is to be looked up.
    pub fn service_created(&mut self, answer: Answer, created: Result<String, String>) -> (r:
        CreateStep)
        ensures
            match answer {
                Answer::Lost(e) => r matches CreateStep::Fail(f) && f.reason()
                    == "servicecomb create service: "@ + e@,
                Answer::Status(status, body) => if is_success(status) {
                    match created {
                        Ok(id) => r matches CreateStep::Have(got) && got@ == id@,
                        Err(e) => r matches CreateStep::Fail(f) && f.reason()
                            == "servicecomb create parse: "@ + e@,
                    }
                } else if status == 400 && crate::text::contains_text(
                    body@,
                    ERR_SERVICE_ALREADY_EXISTS@,
                ) {
                    r matches CreateStep::Lookup(url) && url@ == old(self).existence_text()
                } else {
                    r matches CreateStep::Fail(f) && f.reason() == http_reason(
                        "servicecomb create service"@,
                        status,
                        body@,
                    )
                },
            },
            crate::text::opt_text(final(self).self_service_id) == match r {
                CreateStep::Have(id) => Some(id@),
                _ => crate::text::opt_text(old(self).self_service_id),
            },
            final(self).base == old(self).base,
            final(self).app_id == old(self).app_id,
            final(self).environment == old(self).environment,
            final(self).service_name == old(self).service_name,
            final(self).service_version == old(self).service_version,
            final(self).heartbeat_tasks == old(self).heartbeat_tasks,
    {
        match answer {
            Answer::Lost(e) => CreateStep::Fail(
                RegistryError::Failed(cat("servicecomb create service: ", e.as_str())),
            ),
            Answer::Status(status, body) => {
                if 200 <= status && status < 300 {
                    match created {
                        Ok(id) => {
                            self.self_service_id = Some(id.clone());
                            CreateStep::Have(id)
                        },
                        Err(e) => CreateStep::Fail(
                            RegistryError::Failed(cat("servicecomb create parse: ", e.as_str())),
                        ),
                    }
                } else if status == 400 && contains(body.as_str(), ERR_SERVICE_ALREADY_EXISTS) {
                    CreateStep::Lookup(self.existence_url())
                } else {
                    CreateStep::Fail(
                        RegistryError::Failed(
                            http_failure("servicecomb create service", status, body.as_str()),
                        ),
                    )
                }
            },
        }
    }

    /// Takes the answer to a lookup of the microservice that `remember` asks
    /// for: its id is remembered where that is so.
    pub fn service_looked_up(
        &mut self,
        answer: Answer,
        found: Result<String, String>,
        remember: bool,
    ) -> (r: Result<String, RegistryError>)
        ensures
            match answer {
                Answer::Lost(e) => crate::registry::failed(r, "servicecomb existence: "@ + e@),
                Answer::Status(_, _) => match found {
                    Ok(id) => r matches Ok(got) && got@ == id@,
                    Err(e) => crate::registry::failed(
                        r,
                        "servicecomb existence parse: "@ + e@,
                    ),
                },
            },
            crate::text::opt_text(final(self).self_service_id) == match r {
                Ok(id) => if remember {
                    Some(id@)
                } else {
                    crate::text::opt_text(old(self).self_service_id)
                },
                Err(_) => crate::text::opt_text(old(self).self_service_id),
            },
            final(self).base == old(self).base,
            final(self).app_id == old(self).app_id,
            final(self).environment == old(self).environment,
            final(self).service_name == old(self).service_name,
            final(self).service_version == old(self).service_version,
            final(self).heartbeat_tasks == old(self).heartbeat_tasks,
    {
        match answer {
            Answer::Lost(e) => Err(
                RegistryError::Failed(cat("servicecomb existence: ", e.as_str())),
            ),
            Answer::Status(_, _) => match found {
                Ok(id) => {
                    if remember {
                        self.self_service_id = Some(id.clone());
                    }
                    Ok(id)
                },
                Err(e) => Err(
                    RegistryError::Failed(cat("servicecomb existence parse: ", e.as_str())),
                ),
            },
        }
    }

    /// The request that registers an instance under a microservice. `fresh`
    /// is the id that an instance without one gets.
    pub fn instance_request(
        &self,
        registration: &Registration,
        service_id: &str,
        fresh: &str,
    ) -> (r: InstanceRequest)
        ensures
            r.url@ == root_text(self.base@) + "/microservices/"@ + service_id@ + "/instances"@,
            r.instance_id@ == if registration@.instance.id.len() == 0 {
                fresh@
            } else {
                registration@.instance.id
            },
            r.service_id@ == service_id@,
            crate::text::texts(r.endpoints@) == registration@.instance.endpoints,
            r.host_name@ == r.instance_id@,
            r.version@ == registration@.instance.version,
            r.app_id@ == self.app_id@,
            r.environment@ == self.environment@,
    {
        let id: String = if registration.instance.id.as_str().is_empty() {
            fresh.to_owned()
        } else {
            registration.instance.id.clone()
        };
        let mut url: String = cat3(self.registry_root().as_str(), "/microservices/", service_id);
        url.append("/instances");
        InstanceRequest {
            url,
            instance_id: id.clone(),
            service_id: service_id.to_owned(),
            endpoints: copy_texts(&registration.instance.endpoints),
            host_name: id,
            version: registration.instance.version.clone(),
            app_id: self.app_id.clone(),
            environment: self.environment.clone(),
        }
    }

    /// The request that registers an instance, which gets a random id where it
    /// has none of its own.
    pub fn new_instance_request(&self, registration: &Registration, service_id: &str) -> (r:
        InstanceRequest)
        ensures
            r.url@ == root_text(self.base@) + "/microservices/"@ + service_id@ + "/instances"@,
            registration@.instance.id.len() > 0 ==> r.instance_id@ == registration@.instance.id,
            registration@.instance.id.len() == 0 ==> (exists|bytes: Seq<u8>|
                bytes.len() == 16 && r.instance_id@ == #[trigger] hex_text(bytes)),
            registration@.instance.id.len() == 0 ==> r.instance_id@.len() == 32 && (forall|i: int|
                0 <= i < 32 ==> is_lower_hex(#[trigger] r.instance_id@[i])),
            r.service_id@ == service_id@,
            crate::text::texts(r.endpoints@) == registration@.instance.endpoints,
            r.host_name@ == r.instance_id@,
            r.version@ == registration@.instance.version,
            r.app_id@ == self.app_id@,
            r.environment@ == self.environment@,
    {
        let fresh = random_instance_id();
        proof {
            let bytes = choose|bytes: Seq<u8>|
                bytes.len() == 16 && fresh@ == #[trigger] hex_text(bytes);
            hex_text_is_lower_hex(bytes);
        }
        self.instance_request(registration, service_id, fresh.as_str())
    }

    /// Remembers the heartbeat task of an instance. An earlier one is handed
    /// back, to be stopped.
    pub fn keep_task(&mut self, instance_id: &str, task: T) -> (r: Option<T>)
        ensures
            r == (if old(self).heartbeat_tasks@.contains_key(instance_id@) {
                Some(old(self).heartbeat_tasks@[instance_id@])
            } else {
                None
            }),
            final(self).heartbeat_tasks@ == old(self).heartbeat_tasks@.insert(instance_id@, task),
            final(self).base == old(self).base,
            final(self).app_id == old(self).app_id,
            final(self).environment == old(self).environment,
            final(self).service_name == old(self).service_name,
            final(self).service_version == old(self).service_version,
            final(self).self_service_id == old(self).self_service_id,
    {
        self.heartbeat_tasks.insert(instance_id.to_owned(), task)
    }

    /// Gives the heartbeat task of an instance up, for it to be stopped.
    pub fn drop_task(&mut self, instance_id: &str) -> (r: Option<T>)
        ensures
            final(self).heartbeat_tasks@ == old(self).heartbeat_tasks@.remove(instance_id@),
            match r {
                Some(task) => old(self).heartbeat_tasks@.contains_key(instance_id@) && task
                    == old(self).heartbeat_tasks@[instance_id@],
                None => !old(self).heartbeat_tasks@.contains_key(instance_id@),
            },
            final(self).base == old(self).base,
            final(self).app_id == old(self).app_id,
            final(self).environment == old(self).environment,
            final(self).service_name == old(self).service_name,
            final(self).service_version == old(self).service_version,
            final(self).self_service_id == old(self).self_service_id,
    {
        self.heartbeat_tasks.remove(instance_id)
    }

    /// The address that takes an instance off a microservice.
    pub fn deregister_url(&self, service_id: &str, instance_id: &str) -> (s: String)
        ensures
            s@ == root_text(self.base@) + "/microservices/"@ + service_id@ + "/instances/"@
                + url_encoded(instance_id@),
    {
        let mut s: String = cat3(self.registry_root().as_str(), "/microservices/", service_id);
        s.append("/instances/");
        s.append(urlencode(instance_id).as_str());
        s
    }

    /// The address that an instance's heartbeat goes to.
    pub fn heartbeat_url(&self, service_id: &str, instance_id: &str) -> (s: String)
        ensures
            s@ == root_text(self.base@) + "/microservices/"@ + url_encoded(service_id@)
                + "/instances/"@ + url_encoded(instance_id@) + "/heartbeat"@,
    {
        let service = urlencode(service_id);
        let mut s: String = cat3(
            self.registry_root().as_str(),
            "/microservices/",
            service.as_str(),
        );
        s.append("/instances/");
        s.append(urlencode(instance_id).as_str());
        s.append("/heartbeat");
        s
    }

    /// The address of a service's instance list under the environment.
    pub fn find_url(&self, service_name: &str) -> (s: String)
        ensures
            s@ == find_text(self.base@, self.app_id@, self.environment@, service_name@),
    {
        let app = urlencode(self.app_id.as_str());
        let mut s: String = cat3(self.registry_root().as_str(), "/instances?appId=", app.as_str());
        s.append("&serviceName=");
        s.append(urlencode(service_name).as_str());
        s.append("&version=&env=");
        s.append(urlencode(self.environment.as_str()).as_str());
        s
    }

    /// The id that a watch goes through: there is none before the process has
    /// registered.
    pub fn watch_target(&self) -> (r: Result<String, RegistryError>)
        ensures
            match self.self_service_id {
                Some(id) => r matches Ok(got) && got@ == id@,
                None => crate::registry::failed(
                    r,
                    "servicecomb watch: the registry has not registered a service"@,
                ),
            },
    {
        match &self.self_service_id {
            Some(id) => Ok(id.clone()),
            None => Err(
                RegistryError::Failed(
                    "servicecomb watch: the registry has not registered a service".to_owned(),
                ),
            ),
        }
    }

    /// The address of the stream of events that a microservice watches: that
    /// of the registry, with the stream's own protocol.
    pub fn watcher_url(&self, service_id: &str) -> (s: String)
        ensures
            s@ == crate::text::replaced_first(
                crate::text::replaced_first(
                    root_text(self.base@) + "/microservices/"@ + url_encoded(service_id@)
                        + "/watcher"@,
                    "http://"@,
                    "ws://"@,
                ),
                "https://"@,
                "wss://"@,
            ),
    {
        let service = urlencode(service_id);
        let mut s: String = cat3(
            self.registry_root().as_str(),
            "/microservices/",
            service.as_str(),
        );
        s.append("/watcher");
        let plain = replace_first(s.as_str(), "http://", "ws://");
        replace_first(plain.as_str(), "https://", "wss://")
    }
}

/// The reason of a request that was answered with a failure.
pub open spec fn http_reason(context: Seq<char>, status: u16, body: Seq<char>) -> Seq<char> {
    context + ": HTTP "@ + crate::text::decimal(status as nat) + ": "@ + body
}

fn http_failure(context: &str, status: u16, body: &str) -> (s: String)
    ensures
        s@ == http_reason(context@, status, body@),
{
    let mut s: String = cat(context, ": HTTP ");
    s.append(decimal_text(status as u64).as_str());
    s.append(": ");
    s.append(body);
    s
}

/// What the answer to a request that asks for nothing back means: `context`
/// names the request.
pub fn settle_answer(context: &str, answer: Answer) -> (r: Result<(), RegistryError>)
    ensures
        match answer {
            Answer::Lost(e) => crate::registry::failed(r, context@ + ": "@ + e@),
            Answer::Status(status, body) => if is_success(status) {
                r is Ok
            } else {
                crate::registry::failed(r, http_reason(context@, status, body@))
            },
        },
{
    match answer {
        Answer::Lost(e) => Err(RegistryError::Failed(cat3(context, ": ", e.as_str()))),
        Answer::Status(status, body) => {
            if 200 <= status && status < 300 {
                Ok(())
            } else {
                Err(RegistryError::Failed(http_failure(context, status, body.as_str())))
            }
        },
    }
}

/// An instance as the service-center lists it, as far as it is read.
#[derive(Debug)]
pub struct WireInstance {
    pub instance_id: Option<String>,
    pub service_id: Option<String>,
    pub endpoints: Option<Vec<String>>,
}

/// A text, empty where it is absent.
pub open spec fn or_empty(s: Option<String>) -> Seq<char> {
    match s {
        Some(t) => t@,
        None => Seq::empty(),
    }
}

/// The endpoints of a listed instance.
pub open spec fn wire_endpoints(wire: WireInstance) -> Seq<Seq<char>> {
    match wire.endpoints {
        Some(l) => crate::text::texts(l@),
        None => Seq::empty(),
    }
}

fn empty_or(s: &Option<String>) -> (r: String)
    ensures
        r@ == or_empty(*s),
{
    match s {
        Some(t) => t.clone(),
        None => String::new(),
    }
}

fn endpoints_of(wire: &WireInstance) -> (r: Vec<String>)
    ensures
        crate::text::texts(r@) == wire_endpoints(*wire),
{
    match &wire.endpoints {
        Some(l) => copy_texts(l),
        None => {
            let none: Vec<String> = Vec::new();
            assert(crate::text::texts(none@) =~= Seq::<Seq<char>>::empty());
            none
        },
    }
}

/// What a listed instance of `service_name` is read as. Its version is the id
/// of its microservice.
pub open spec fn listed_instance(
    wire: WireInstance,
    service_name: Seq<char>,
) -> crate::registry::InstanceView {
    crate::registry::InstanceView {
        id: or_empty(wire.instance_id),
        name: service_name,
        version: or_empty(wire.service_id),
        endpoints: wire_endpoints(wire),
    }
}

/// Reads a listed instance of `service_name`.
pub fn rebuild(wire: &WireInstance, service_name: &str) -> (r: Instance)
    ensures
        r@ == listed_instance(*wire, service_name@),
{
    Instance {
        id: empty_or(&wire.instance_id),
        name: service_name.to_owned(),
        version: empty_or(&wire.service_id),
        endpoints: endpoints_of(wire),
    }
}

/// A listed instance keeps its id, its endpoints and their order, has the name
/// that was asked for and, for a version, the id of its microservice; what is
/// not there is empty.
pub proof fn listed_instance_keeps_its_parts(wire: WireInstance, service_name: Seq<char>)
    ensures
        ({
            let i = listed_instance(wire, service_name);
            &&& i.name == service_name
            &&& wire.instance_id matches Some(id) ==> i.id == id@
            &&& wire.instance_id is None ==> i.id.len() == 0
            &&& wire.service_id matches Some(id) ==> i.version == id@
            &&& wire.service_id is None ==> i.version.len() == 0
            &&& wire.endpoints is None ==> i.endpoints.len() == 0
            &&& wire.endpoints matches Some(l) ==> i.endpoints.len() == l@.len() && forall|k: int|
                #![trigger l@[k]]
                0 <= k < l@.len() ==> i.endpoints[k] == l@[k]@
        }),
{
}

/// The statuses of success are those from 200 to 299: the ones whose hundreds
/// are two.
pub proof fn success_is_two_hundred_and_some(status: u16)
    ensures
        is_success(status) <==> status as int / 100 == 2,
{
}

/// What a successful body of an instance list was read as.
pub type Listing = Result<Option<Vec<WireInstance>>, String>;

/// What the answer to a query for instances gives: the listed instances, in
/// order.
#[verifier::loop_isolation(false)]
pub fn find_instances(service_name: &str, answer: Answer, listing: Listing) -> (r: Result<
    Vec<Instance>,
    RegistryError,
>)
    ensures
        match answer {
            Answer::Lost(e) => crate::registry::failed(r, "servicecomb find instances: "@ + e@),
            Answer::Status(status, body) => if !is_success(status) {
                crate::registry::failed(
                    r,
                    http_reason("servicecomb find instances"@, status, body@),
                )
            } else {
                match listing {
                    Err(e) => crate::registry::failed(
                        r,
                        "servicecomb find instances parse: "@ + e@,
                    ),
                    Ok(None) => r matches Ok(l) && l@.len() == 0,
                    Ok(Some(wires)) => r matches Ok(l) && crate::registry::instance_views(l@)
                        == Seq::new(
                        wires@.len(),
                        |i: int| listed_instance(wires@[i], service_name@),
                    ),
                }
            },
        },
{
    match answer {
        Answer::Lost(e) => {
            return Err(RegistryError::Failed(cat("servicecomb find instances: ", e.as_str())));
        },
        Answer::Status(status, body) => {
            if !(200 <= status && status < 300) {
                return Err(
                    RegistryError::Failed(
                        http_failure("servicecomb find instances", status, body.as_str()),
                    ),
                );
            }
        },
    }
    let wires = match listing {
        Err(e) => {
            return Err(
                RegistryError::Failed(cat("servicecomb find instances parse: ", e.as_str())),
            );
        },
        Ok(None) => {
            return Ok(Vec::new());
        },
        Ok(Some(wires)) => wires,
    };
    let mut instances: Vec<Instance> = Vec::new();
    let mut i: usize = 0;
    while i < wires.len()
        invariant
            i <= wires@.len(),
            instances@.len() == i,
            forall|j: int|
                0 <= j < i ==> (#[trigger] instances@[j])@ == listed_instance(
                    wires@[j],
                    service_name@,
                ),
        decreases wires@.len() - i,
    {
        instances.push(rebuild(&wires[i], service_name));
        i += 1;
    }
    assert(crate::registry::instance_views(instances@) =~= Seq::new(
        wires@.len(),
        |i: int| listed_instance(wires@[i], service_name@),
    ));
    Ok(instances)
}

/// An event of a watched microservice.
#[derive(Debug)]
pub struct WireChangedEvent {
    /// The name of the service that changed.
    pub service_name: Option<String>,
    /// Its version.
    pub version: Option<String>,
    /// The instance that changed.
    pub instance: Option<WireInstance>,
}

/// The instance that an event tells a watcher of `service_name` about:
/// nothing where it is about another service or about no instance.
pub fn changed_instance(event: WireChangedEvent, service_name: &str) -> (r: Option<Instance>)
    ensures
        match (event.service_name, event.instance) {
            (Some(name), Some(wire)) => if name@ == service_name@ {
                r matches Some(i) && i@ == (crate::registry::InstanceView {
                    id: or_empty(wire.instance_id),
                    name: name@,
                    version: or_empty(event.version),
                    endpoints: wire_endpoints(wire),
                })
            } else {
                r is None
            },
            _ => r is None,
        },
{
    match (event.service_name, event.instance) {
        (Some(name), Some(wire)) => {
            if same(name.as_str(), service_name) {
                Some(
                    Instance {
                        id: empty_or(&wire.instance_id),
                        name,
                        version: empty_or(&event.version),
                        endpoints: endpoints_of(&wire),
                    },
                )
            } else {
                None
            }
        },
        _ => None,
    }
}

/// The wait before a watch is dialled again.
#[derive(Debug, Clone, Copy, PartialEq, Eq, Structural)]
pub struct Backoff {
    pub secs: u64,
}

impl Backoff {
    /// A wait is between one second and the cap.
    pub open spec fn wf(&self) -> bool {
        1 <= self.secs <= WATCH_BACKOFF_CAP_SECS
    }

    /// The first wait.
    pub fn new() -> (b: Backoff)
        ensures
            b.wf(),
            b.secs == 1,
    {
        Backoff { secs: 1 }
    }

    /// A dial came through: the next wait is the first one again.
    pub fn connected(&mut self)
        ensures
            final(self).wf(),
            final(self).secs == 1,
    {
        self.secs = 1;
    }

    /// A dial failed or a stream broke: hands back how long to wait, and
    /// doubles the wait after that, up to the cap.
    pub fn broken(&mut self) -> (wait: u64)
        requires
            old(self).wf(),
        ensures
            final(self).wf(),
            wait == old(self).secs,
            final(self).secs == if old(self).secs * 2 <= WATCH_BACKOFF_CAP_SECS {
                (old(self).secs * 2) as u64
            } else {
                WATCH_BACKOFF_CAP_SECS
            },
            forall|n: nat| #[trigger]
                wait_after(n) == old(self).secs ==> final(self).secs == wait_after(n + 1),
    {
        let wait: u64 = self.secs;
        let doubled: u64 = wait * 2;
        self.secs = if doubled <= WATCH_BACKOFF_CAP_SECS {
            doubled
        } else {
            WATCH_BACKOFF_CAP_SECS
        };
        assert forall|n: nat| #[trigger] wait_after(n) == old(self).secs implies self.secs
            == wait_after(n + 1) by {
            assert((n + 1 - 1) as nat == n);
        }
        wait
    }
}

/// The wait after `n` failures in a row.
pub open spec fn wait_after(n: nat) -> nat
    decreases n,
{
    if n == 0 {
        1
    } else {
        let doubled = wait_after((n - 1) as nat) * 2;
        if doubled <= WATCH_BACKOFF_CAP_SECS {
            doubled
        } else {
            WATCH_BACKOFF_CAP_SECS as nat
        }
    }
}

/// The waits grow, from one second to the cap, which they reach with the
/// fifth failure in a row and keep.
pub proof fn waits_grow(n: nat)
    ensures
        1 <= wait_after(n) <= wait_after(n + 1) <= WATCH_BACKOFF_CAP_SECS,
        n >= 5 ==> wait_after(n) == WATCH_BACKOFF_CAP_SECS,
    decreases n,
{
    if n > 0 {
        waits_grow((n - 1) as nat);
    }
    if n == 5 {
        reveal_with_fuel(wait_after, 6);
        assert(wait_after(5) == WATCH_BACKOFF_CAP_SECS);
    }
}

/// A reader of a service's events.
#[derive(Debug)]
pub struct ServicecombWatcher {
    pub stopped: bool,
}

impl ServicecombWatcher {
    /// Whether a watcher that is asked for the next snapshot may wait.
    pub fn begin_next(&self) -> (r: Result<(), RegistryError>)
        ensures
            if self.stopped {
                crate::registry::failed(r, "watcher stopped"@)
            } else {
                r is Ok
            },
    {
        if self.stopped {
            Err(RegistryError::Failed("watcher stopped".to_owned()))
        } else {
            Ok(())
        }
    }

    /// What an event gives: the changed instance alone. No event means that
    /// the watch has gone.
    pub fn finish_next(&self, event: Option<Instance>) -> (r: Result<
        Vec<Instance>,
        RegistryError,
    >)
        ensures
            match event {
                Some(i) => r matches Ok(l) && l@ == seq![i],
                None => crate::registry::failed(r, "watcher stopped"@),
            },
    {
        match event {
            Some(i) => {
                let mut l: Vec<Instance> = Vec::new();
                l.push(i);
                assert(l@ =~= seq![i]);
                Ok(l)
            },
            None => Err(RegistryError::Failed("watcher stopped".to_owned())),
        }
    }

    /// Stops the watcher.
    pub fn stop(&mut self)
        ensures
            final(self).stopped,
    {
        self.stopped = true;
    }
}

} // verus!
