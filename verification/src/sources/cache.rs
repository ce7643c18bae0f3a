//! The response cache of an HTTP query.

use crate::sources::rest::HttpMethod;
use crate::text::text_eq;
use vstd::prelude::*;
use vstd::string::StringExecFns;

verus! {

/// The JSON value of `serde_json`, carried as it is.
#[verifier::external_type_specification]
#[verifier::external_body]
pub struct ExJsonValue(serde_json::Value);

/// `Clone::clone` of `serde_json::Value`: a value equal to the given one.
#[verifier::external_body]
pub(crate) fn json_clone(value: &serde_json::Value) -> (r: serde_json::Value)
    ensures
        r == *value,
{
    value.clone()
}

/// A cached response and the time at which it entered the cache, in
/// nanoseconds since the epoch.
#[derive(Debug)]
pub struct DhcpRestSourceHttpCacheItem<T> {
    pub data: T,
    pub time: u128,
}

/// Whether an entry that entered at `time` is too old at `now`.
pub open spec fn expired_at(time: u128, duration: u128, now: u128) -> bool {
    now > time + duration
}

impl<T> DhcpRestSourceHttpCacheItem<T> {
    /// An entry that enters the cache at `now`.
    pub fn new(data: T, now: u128) -> (r: Self)
        ensures
            r.data == data,
            r.time == now,
    {
        Self { data, time: now }
    }

    /// Whether the entry is older than `duration` at the time `now`: it is
    /// served while `now - time <= duration`.
    pub fn expired(&self, duration: u128, now: u128) -> (r: bool)
        ensures
            r == expired_at(self.time, duration, now),
    {
        match self.time.checked_add(duration) {
            Some(deadline) => now > deadline,
            None => false,
        }
    }
}

/// The key of a cached response: the method and the absolute URL of the query.
#[derive(Debug)]
pub struct DhcpRestSourceHttpCacheKey {
    pub url: String,
    pub method: HttpMethod,
}

impl View for DhcpRestSourceHttpCacheKey {
    type V = (HttpMethod, Seq<char>);

    open spec fn view(&self) -> (HttpMethod, Seq<char>) {
        (self.method, self.url@)
    }
}

impl DhcpRestSourceHttpCacheKey {
    /// Whether the key is that of the given method and URL.
    pub fn matches(&self, method: HttpMethod, url: &str) -> (r: bool)
        ensures
            r == (self@ == (method, url@)),
    {
        self.method == method && text_eq(self.url.as_str(), url)
    }

    /// The key as a log line shows it: the method, ` - `, the URL.
    pub fn label(&self) -> (r: String)
        ensures
            r@ == self.method.name() + " - "@ + self.url@,
    {
        let mut out = self.method.as_str().to_string();
        out.append(" - ");
        out.append(self.url.as_str());
        out
    }
}


/// What a cache maps a method and a URL to: the response and its time of entry.
pub type CacheEntries = Map<(HttpMethod, Seq<char>), (serde_json::Value, u128)>;

/// The mathematical content of a cache: its entries, and the nanoseconds
/// for which an entry is served.
pub struct CacheState {
    pub entries: CacheEntries,
    pub expiration: u128,
}

/// What a list of entries amounts to when a later entry replaces an earlier
/// one of the same key.
pub open spec fn entries_of(
    list: Seq<(DhcpRestSourceHttpCacheKey, DhcpRestSourceHttpCacheItem<serde_json::Value>)>,
) -> CacheEntries
    decreases list.len(),
{
    if list.len() == 0 {
        Map::empty()
    } else {
        entries_of(list.drop_last()).insert(
            list.last().0@,
            (list.last().1.data, list.last().1.time),
        )
    }
}

/// A lookup at the time `now`: a live entry is served and stays; an expired
/// one is served no more and leaves the cache.
pub open spec fn looked_up(state: CacheState, key: (HttpMethod, Seq<char>), now: u128) -> (
    Option<serde_json::Value>,
    CacheState,
) {
    if state.entries.contains_key(key) {
        if expired_at(state.entries[key].1, state.expiration, now) {
            (None, CacheState { entries: state.entries.remove(key), expiration: state.expiration })
        } else {
            (Some(state.entries[key].0), state)
        }
    } else {
        (None, state)
    }
}

/// The cache after a response was stored at the time `now`. A cache whose
/// expiration is zero stores nothing.
pub open spec fn stored(
    state: CacheState,
    key: (HttpMethod, Seq<char>),
    value: serde_json::Value,
    now: u128,
) -> CacheState {
    if state.expiration > 0 {
        CacheState {
            entries: state.entries.insert(key, (value, now)),
            expiration: state.expiration,
        }
    } else {
        state
    }
}

/// The response cache of one HTTP query. The entries are a list, the last
/// entry of a key being the one that counts: the key is a method and a
/// URL, and the verifier's model of hash maps knows integer keys only.
#[derive(Debug)]
pub struct DhcpRestSourceHttp {
    cache: Vec<(DhcpRestSourceHttpCacheKey, DhcpRestSourceHttpCacheItem<serde_json::Value>)>,
    expiration: u128,
}

impl View for DhcpRestSourceHttp {
    type V = CacheState;

    closed spec fn view(&self) -> CacheState {
        CacheState { entries: entries_of(self.cache@), expiration: self.expiration }
    }
}

impl Default for DhcpRestSourceHttp {
    fn default() -> (r: Self)
        ensures
            r@.entries == CacheEntries::empty(),
            r@.expiration == 0,
    {
        Self::new(0)
    }
}

/// An entry that no later entry of the list replaces is what the list
/// holds under its key.
proof fn lemma_last_entry(
    list: Seq<(DhcpRestSourceHttpCacheKey, DhcpRestSourceHttpCacheItem<serde_json::Value>)>,
    at: int,
)
    requires
        0 <= at < list.len(),
        forall|j: int| at < j < list.len() ==> (#[trigger] list[j]).0@ != list[at].0@,
    ensures
        entries_of(list).contains_key(list[at].0@),
        entries_of(list)[list[at].0@] == (list[at].1.data, list[at].1.time),
    decreases list.len(),
{
    if at < list.len() - 1 {
        assert(list.last().0@ != list[at].0@);
        let shorter = list.drop_last();
        assert forall|j: int| at < j < shorter.len() implies (#[trigger] shorter[j]).0@
            != shorter[at].0@ by {
            assert(shorter[j] == list[j]);
        }
        lemma_last_entry(shorter, at);
    }
}

/// A key that no entry of the list has is not in what the list holds.
proof fn lemma_no_entry(
    list: Seq<(DhcpRestSourceHttpCacheKey, DhcpRestSourceHttpCacheItem<serde_json::Value>)>,
    key: (HttpMethod, Seq<char>),
)
    requires
        forall|j: int| 0 <= j < list.len() ==> (#[trigger] list[j]).0@ != key,
    ensures
        !entries_of(list).contains_key(key),
    decreases list.len(),
{
    if list.len() > 0 {
        let shorter = list.drop_last();
        assert(list.last().0@ != key);
        assert forall|j: int| 0 <= j < shorter.len() implies (#[trigger] shorter[j]).0@ != key by {
            assert(shorter[j] == list[j]);
        }
        lemma_no_entry(shorter, key);
    }
}

/// Taking an entry out of the list changes nothing under any other key.
proof fn lemma_entry_removed(
    list: Seq<(DhcpRestSourceHttpCacheKey, DhcpRestSourceHttpCacheItem<serde_json::Value>)>,
    at: int,
    other: (HttpMethod, Seq<char>),
)
    requires
        0 <= at < list.len(),
        other != list[at].0@,
    ensures
        entries_of(list.remove(at)).contains_key(other) == entries_of(list).contains_key(other),
        entries_of(list.remove(at)).contains_key(other) ==> entries_of(list.remove(at))[other]
            == entries_of(list)[other],
    decreases list.len(),
{
    if at == list.len() - 1 {
        assert(list.remove(at) =~= list.drop_last());
    } else {
        let shorter = list.drop_last();
        assert(list.remove(at).drop_last() =~= shorter.remove(at));
        assert(list.remove(at).last() == list.last());
        assert(shorter[at] == list[at]);
        lemma_entry_removed(shorter, at, other);
    }
}

impl DhcpRestSourceHttp {
    /// An empty cache that serves an entry for `expiration` nanoseconds;
    /// with zero it never stores one.
    pub fn new(expiration: u128) -> (r: Self)
        ensures
            r@.entries == CacheEntries::empty(),
            r@.expiration == expiration,
    {
        Self { cache: Vec::new(), expiration }
    }

    /// The nanoseconds for which an entry is served.
    pub fn expiration(&self) -> (r: u128)
        ensures
            r == self@.expiration,
    {
        self.expiration
    }

    fn find(&self, method: HttpMethod, url: &str) -> (r: Option<usize>)
        ensures
            match r {
                Some(i) => {
                    &&& i < self.cache.len()
                    &&& self.cache[i as int].0@ == (method, url@)
                    &&& self@.entries.contains_key((method, url@))
                    &&& self@.entries[(method, url@)] == (
                        self.cache[i as int].1.data,
                        self.cache[i as int].1.time,
                    )
                },
                None => !self@.entries.contains_key((method, url@)),
            },
    {
        let mut i: usize = self.cache.len();
        while i > 0
            invariant
                i <= self.cache.len(),
                forall|j: int| i <= j < self.cache.len() ==> (#[trigger] self.cache[j]).0@ != (
                    method,
                    url@,
                ),
            decreases i,
        {
            i -= 1;
            if self.cache[i].0.matches(method, url) {
                proof {
                    lemma_last_entry(self.cache@, i as int);
                }
                return Some(i);
            }
        }
        proof {
            lemma_no_entry(self.cache@, (method, url@));
        }
        None
    }

    fn evict(&mut self, method: HttpMethod, url: &str)
        ensures
            final(self)@.entries == old(self)@.entries.remove((method, url@)),
            final(self)@.expiration == old(self)@.expiration,
    {
        let ghost key = (method, url@);
        loop
            invariant
                key == (method, url@),
                self.expiration == old(self).expiration,
                forall|other: (HttpMethod, Seq<char>)|
                    other != key ==> (#[trigger] self@.entries.contains_key(other))
                        == old(self)@.entries.contains_key(other),
                forall|other: (HttpMethod, Seq<char>)|
                    other != key && self@.entries.contains_key(other) ==> #[trigger] self@.entries[other]
                        == old(self)@.entries[other],
            ensures
                !self@.entries.contains_key(key),
            decreases self.cache.len(),
        {
            match self.find(method, url) {
                Some(i) => {
                    let ghost before = self.cache@;
                    self.cache.remove(i);
                    proof {
                        assert forall|other: (HttpMethod, Seq<char>)| other != key implies (
                        #[trigger] entries_of(self.cache@).contains_key(other))
                            == entries_of(before).contains_key(other) && (entries_of(
                            self.cache@,
                        ).contains_key(other) ==> entries_of(self.cache@)[other] == entries_of(
                            before,
                        )[other]) by {
                            lemma_entry_removed(before, i as int, other);
                        }
                    }
                },
                None => {
                    break ;
                },
            }
        }
        assert(self@.entries =~= old(self)@.entries.remove(key));
    }

    /// Looks a response up at the time `now`. A live entry is served and no
    /// request is needed; an expired entry is thrown out and a request is
    /// due, as it is where the cache holds nothing for the query.
    pub fn lookup(&mut self, method: HttpMethod, url: &str, now: u128) -> (r: Option<
        serde_json::Value,
    >)
        ensures
            (r, final(self)@) == looked_up(old(self)@, (method, url@), now),
    {
        match self.find(method, url) {
            Some(i) => {
                if self.cache[i].1.expired(self.expiration, now) {
                    self.evict(method, url);
                    None
                } else {
                    Some(json_clone(&self.cache[i].1.data))
                }
            },
            None => None,
        }
    }

    /// Stores a response at the time `now`, in place of an older one for the
    /// same query. A cache whose expiration is zero stores nothing.
    pub fn store(&mut self, method: HttpMethod, url: &str, value: &serde_json::Value, now: u128)
        ensures
            final(self)@ == stored(old(self)@, (method, url@), *value, now),
    {
        if self.expiration > 0 {
            let key = DhcpRestSourceHttpCacheKey { url: url.to_string(), method };
            let item = DhcpRestSourceHttpCacheItem::new(json_clone(value), now);
            let ghost before = self.cache@;
            self.cache.push((key, item));
            proof {
                assert(self.cache@.drop_last() =~= before);
            }
        }
    }
}

/// A response that was stored is served at every time up to its
/// expiration, and serving it leaves the cache as it is: within the
/// expiration every lookup gives the same response and none asks for a
/// request.
pub proof fn lemma_cache_serves(
    state: CacheState,
    key: (HttpMethod, Seq<char>),
    value: serde_json::Value,
    then: u128,
    now: u128,
)
    requires
        state.expiration > 0,
        now <= then + state.expiration,
    ensures
        looked_up(stored(state, key, value, then), key, now) == (
            Some(value),
            stored(state, key, value, then),
        ),
{
}

/// After its expiration a stored response is served no more: the lookup
/// asks for a new request and the entry leaves the cache.
pub proof fn lemma_cache_expires(
    state: CacheState,
    key: (HttpMethod, Seq<char>),
    value: serde_json::Value,
    then: u128,
    now: u128,
)
    requires
        state.expiration > 0,
        now > then + state.expiration,
    ensures
        looked_up(stored(state, key, value, then), key, now).0 is None,
        !looked_up(stored(state, key, value, then), key, now).1.entries.contains_key(key),
{
}

/// A cache whose expiration is zero never holds a response: storing
/// changes nothing, and every lookup in an empty cache asks for a request.
pub proof fn lemma_cache_disabled(
    state: CacheState,
    key: (HttpMethod, Seq<char>),
    value: serde_json::Value,
    then: u128,
    now: u128,
)
    requires
        state.expiration == 0,
        state.entries == CacheEntries::empty(),
    ensures
        stored(state, key, value, then) == state,
        looked_up(stored(state, key, value, then), key, now) == (
            None::<serde_json::Value>,
            state,
        ),
{
}

} // verus!
