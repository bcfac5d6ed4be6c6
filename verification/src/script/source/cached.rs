//! A source behind a cache. Times are nanoseconds of a clock that does not run
//! backwards.
use vstd::prelude::*;

use crate::script::error::ScriptError;
use crate::string_map::StringMap;
use crate::text::{cat3, debug_quoted};

verus! {

/// What a look at the watch of a key showed.
#[derive(Clone, Copy, Debug, PartialEq, Eq, Structural)]
pub enum WatchSign {
    /// There is no watch, or nothing to see.
    Quiet,
    /// The script changed.
    Tick,
    /// The watch ended.
    Ended,
}

/// What a load does.
pub enum CacheStep {
    /// Answer with the cached script.
    Hit(String),
    /// Fetch the script; on the first fetch of the key, have it watched too.
    Fetch {
        first: bool,
    },
}

/// The cache in front of a source: the scripts it holds, and for every key that
/// was fetched when that was, unless it was evicted since.
pub struct CachedSource {
    ttl: Option<u128>,
    codes: StringMap<String>,
    stamps: StringMap<Option<u128>>,
}

/// A key was fetched, and recently enough.
pub open spec fn is_fresh(
    ttl: Option<u128>,
    stamps: Map<Seq<char>, Option<u128>>,
    key: Seq<char>,
    now: u128,
) -> bool {
    stamps.contains_key(key) && (ttl is Some ==> stamps[key] is Some && now - stamps[key]->0
        <= ttl->0)
}

/// The cached script that a load of a key is answered with.
pub open spec fn served(
    ttl: Option<u128>,
    codes: Map<Seq<char>, Seq<char>>,
    stamps: Map<Seq<char>, Option<u128>>,
    key: Seq<char>,
    now: u128,
) -> Option<Seq<char>> {
    if is_fresh(ttl, stamps, key, now) {
        crate::script::source::memory::loaded(codes, key)
    } else {
        None
    }
}

/// The keys that were fetched, without the one that is evicted.
pub open spec fn evicted(stamps: Map<Seq<char>, Option<u128>>, key: Seq<char>) -> Map<
    Seq<char>,
    Option<u128>,
> {
    if stamps.contains_key(key) {
        stamps.insert(key, None)
    } else {
        stamps
    }
}

/// The complaint that the source failed to load.
pub open spec fn remote_text(key: Seq<char>, cause: Seq<char>) -> Seq<char> {
    "cached source: remote load "@ + crate::text::debug_text(key) + ": "@ + cause
}

/// What was fetched is served, without asking the source, until it is too old
/// or evicted.
pub proof fn fetched_is_served(
    ttl: Option<u128>,
    codes: Map<Seq<char>, Seq<char>>,
    stamps: Map<Seq<char>, Option<u128>>,
    key: Seq<char>,
    code: Seq<char>,
    then: u128,
    now: u128,
)
    ensures
        served(ttl, codes.insert(key, code), stamps.insert(key, Some(then)), key, now)
            == (if ttl is Some
            && now - then > ttl->0 {
            None
        } else {
            Some(code)
        }),
{
}

/// What was evicted is not served.
pub proof fn evicted_is_not_served(
    ttl: Option<u128>,
    codes: Map<Seq<char>, Seq<char>>,
    stamps: Map<Seq<char>, Option<u128>>,
    key: Seq<char>,
    now: u128,
)
    ensures
        served(ttl, codes.remove(key), evicted(stamps, key), key, now) is None,
{
}

/// A key that was never fetched is not served, nor is one without a script. With
/// a bound on the age, neither is a key that was evicted since it was fetched.
pub proof fn only_what_was_fetched_is_served(
    ttl: Option<u128>,
    codes: Map<Seq<char>, Seq<char>>,
    stamps: Map<Seq<char>, Option<u128>>,
    key: Seq<char>,
    now: u128,
)
    ensures
        !stamps.contains_key(key) || !codes.contains_key(key) ==> served(
            ttl,
            codes,
            stamps,
            key,
            now,
        ) is None,
        ttl is Some && stamps.contains_key(key) && stamps[key] is None ==> served(
            ttl,
            codes,
            stamps,
            key,
            now,
        ) is None,
        served(ttl, codes, stamps, key, now) matches Some(code) ==> code == codes[key],
{
}

/// Evicting a key changes nothing for any other, and the key stays known as one
/// that was fetched before.
pub proof fn eviction_touches_one_key(
    ttl: Option<u128>,
    codes: Map<Seq<char>, Seq<char>>,
    stamps: Map<Seq<char>, Option<u128>>,
    key: Seq<char>,
    other: Seq<char>,
    now: u128,
)
    ensures
        other != key ==> served(ttl, codes.remove(key), evicted(stamps, key), other, now)
            == served(ttl, codes, stamps, other, now),
        evicted(stamps, key).contains_key(other) == stamps.contains_key(other),
        stamps.contains_key(key) ==> evicted(stamps, key)[key] is None,
{
}

impl CachedSource {
    /// How old a script may be.
    pub closed spec fn age_bound(&self) -> Option<u128> {
        self.ttl
    }

    /// The cached scripts.
    pub closed spec fn codes(&self) -> Map<Seq<char>, Seq<char>> {
        crate::script::source::memory::text_map(self.codes@)
    }

    /// When the keys were fetched.
    pub closed spec fn stamps(&self) -> Map<Seq<char>, Option<u128>> {
        self.stamps@
    }

    /// An empty cache, without a bound on the age.
    pub fn new() -> (r: Self)
        ensures
            r.age_bound() is None,
            r.codes() == Map::<Seq<char>, Seq<char>>::empty(),
            r.stamps() == Map::<Seq<char>, Option<u128>>::empty(),
    {
        let r = CachedSource { ttl: None, codes: StringMap::new(), stamps: StringMap::new() };
        assert(r.codes() =~= Map::<Seq<char>, Seq<char>>::empty());
        r
    }

    /// Bounds the age of what is served.
    pub fn with_ttl(self, ttl: u128) -> (r: Self)
        ensures
            r.age_bound() == Some(ttl),
            r.codes() == self.codes(),
            r.stamps() == self.stamps(),
    {
        CachedSource { ttl: Some(ttl), codes: self.codes, stamps: self.stamps }
    }

    /// Evicts a key: its next load fetches.
    pub fn invalidate(&mut self, key: &str)
        ensures
            final(self).age_bound() == old(self).age_bound(),
            final(self).codes() == old(self).codes().remove(key@),
            final(self).stamps() == evicted(old(self).stamps(), key@),
    {
        let ghost before = self.codes();
        self.codes.remove(key);
        assert(self.codes() =~= before.remove(key@));
        if self.stamps.contains_key(key) {
            self.stamps.insert(key.to_owned(), None);
        }
    }

    /// Evicts every key that was fetched.
    pub fn invalidate_all(&mut self)
        ensures
            final(self).age_bound() == old(self).age_bound(),
            final(self).codes() == old(self).codes().remove_keys(old(self).stamps().dom()),
            final(self).stamps().dom() == old(self).stamps().dom(),
            forall|k: Seq<char>| #[trigger]
                final(self).stamps().contains_key(k) ==> final(self).stamps()[k] is None,
    {
        let ghost start = *self;
        let n: usize = self.stamps.len();
        let ghost keys = self.stamps.keys();
        let mut i: usize = 0;
        assert(self.codes() =~= start.codes().remove_keys(keys.take(0).to_set()));
        while i < n
            invariant
                i <= n,
                n == keys.len(),
                keys == self.stamps.keys(),
                keys == start.stamps.keys(),
                keys.no_duplicates(),
                self.age_bound() == start.age_bound(),
                self.stamps().dom() == start.stamps().dom(),
                start.stamps().dom() == keys.to_set(),
                self.codes() == start.codes().remove_keys(keys.take(i as int).to_set()),
                forall|j: int| 0 <= j < i ==> self.stamps()[#[trigger] keys[j]] is None,
            decreases n - i,
        {
            let key = self.stamps.key_at(i).clone();
            let ghost before = *self;
            assert(keys.contains(keys[i as int]));
            self.codes.remove(key.as_str());
            assert(self.codes() =~= before.codes().remove(key@));
            self.stamps.insert(key, None);
            proof {
                assert(self.stamps().dom() =~= start.stamps().dom());
                let shorter = keys.take(i as int);
                let longer = keys.take(i + 1);
                assert forall|k: Seq<char>| longer.to_set().contains(k) <==> (
                shorter.to_set().contains(k) || k == keys[i as int]) by {
                    if shorter.contains(k) {
                        let j = choose|j: int| 0 <= j < shorter.len() && shorter[j] == k;
                        assert(longer[j] == k);
                    }
                    assert(longer[i as int] == keys[i as int]);
                    if longer.contains(k) && k != keys[i as int] {
                        let j = choose|j: int| 0 <= j < longer.len() && longer[j] == k;
                        assert(shorter[j] == k);
                    }
                }
                assert(self.codes() =~= start.codes().remove_keys(keys.take(i + 1).to_set()));
            }
            i += 1;
        }
        proof {
            assert(keys.take(n as int) =~= keys);
            assert forall|k: Seq<char>| #[trigger]
                self.stamps().contains_key(k) implies self.stamps()[k] is None by {
                assert(keys.to_set().contains(k));
                let j = choose|j: int| 0 <= j < keys.len() && keys[j] == k;
                assert(self.stamps()[keys[j]] is None);
            }
        }
    }

    /// Begins a load, after a look at the watch of the key: a change evicts the
    /// key. What is cached and fresh is the answer; else the script is fetched.
    pub fn begin_load(&mut self, key: &str, sign: WatchSign, now: u128) -> (r: CacheStep)
        ensures
            final(self).age_bound() == old(self).age_bound(),
            sign == WatchSign::Tick && old(self).stamps().contains_key(key@) ==> final(self).codes()
                == old(self).codes().remove(key@) && final(self).stamps() == evicted(
                old(self).stamps(),
                key@,
            ),
            !(sign == WatchSign::Tick && old(self).stamps().contains_key(key@))
                ==> final(self).codes() == old(self).codes()
                && final(self).stamps() == old(self).stamps(),
            match served(
                final(self).age_bound(),
                final(self).codes(),
                final(self).stamps(),
                key@,
                now,
            ) {
                Some(code) => r is Hit && r->Hit_0@ == code,
                None => r == (CacheStep::Fetch { first: !old(self).stamps().contains_key(key@) }),
            },
    {
        if sign == WatchSign::Tick && self.stamps.contains_key(key) {
            self.invalidate(key);
        }
        let (known, fresh) = match self.stamps.get(key) {
            None => (false, false),
            Some(stamp) => match self.ttl {
                None => (true, true),
                Some(ttl) => match stamp {
                    Some(then) => (true, now < *then || now - *then <= ttl),
                    None => (true, false),
                },
            },
        };
        if fresh {
            if let Some(code) = self.codes.get(key) {
                return CacheStep::Hit(code.clone());
            }
        }
        CacheStep::Fetch { first: !known }
    }

    /// Takes what the source answered. A script is cached, and the key is fresh
    /// from now on.
    pub fn fetched(&mut self, key: &str, answer: Result<String, ScriptError>, now: u128) -> (r:
        Result<String, ScriptError>)
        ensures
            final(self).age_bound() == old(self).age_bound(),
            match answer {
                Ok(code) => r is Ok && r->Ok_0@ == code@
                    && final(self).codes() == old(self).codes().insert(key@, code@)
                    && final(self).stamps() == old(self).stamps().insert(
                    key@,
                    Some(now),
                ),
                Err(e) => crate::script::error::fails(r, remote_text(key@, e.text()))
                    && final(self).codes() == old(self).codes()
                    && final(self).stamps() == old(self).stamps(),
            },
    {
        match answer {
            Ok(code) => {
                let ghost before = self.codes();
                self.codes.insert(key.to_owned(), code.clone());
                assert(self.codes() =~= before.insert(key@, code@));
                self.stamps.insert(key.to_owned(), Some(now));
                Ok(code)
            },
            Err(e) => {
                let quoted = debug_quoted(key);
                let mut text = cat3("cached source: remote load ", quoted.as_str(), ": ");
                let cause = e.message();
                text.append(cause.as_str());
                Err(ScriptError::Failed(text))
            },
        }
    }

    /// Takes what the source answered to a watch.
    pub fn watched<W>(&self, answer: Result<W, ScriptError>) -> (r: Result<W, ScriptError>)
        ensures
            match answer {
                Err(ScriptError::CapabilityNotSupported) => crate::script::error::fails(
                    r,
                    "cached source: remote does not implement watching"@,
                ),
                _ => r == answer,
            },
    {
        match answer {
            Err(ScriptError::CapabilityNotSupported) => Err(
                ScriptError::Failed("cached source: remote does not implement watching".to_owned()),
            ),
            other => other,
        }
    }
}

} // verus!
