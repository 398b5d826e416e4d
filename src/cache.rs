use vstd::prelude::*;

verus! {

/// What a cache holds: each key maps to its artifact location and the time
/// (in nanoseconds on the caller's clock) at which it was last touched.
pub type CacheMap = Map<Seq<char>, (Seq<char>, u64)>;

/// The map without any entry.
pub open spec fn no_entries() -> CacheMap {
    Map::empty()
}

/// The entries held by an `EntryTable`.
pub uninterp spec fn table_entries(t: EntryTable) -> Map<Seq<char>, (Seq<char>, u64)>;

/// A hash table from key to (location, last touched), kept in a
/// `hashbrown::HashMap`.
#[verifier::external_body]
pub struct EntryTable {
    map: hashbrown::HashMap<String, (String, u64)>,
}

impl EntryTable {
    /// Relies on hashbrown::HashMap::new: a new map holds no entry.
    #[verifier::external_body]
    fn new() -> (r: EntryTable)
        ensures
            table_entries(r) == no_entries(),
    {
        EntryTable { map: hashbrown::HashMap::new() }
    }

    /// Relies on hashbrown::HashMap::get: the value stored under an equal key,
    /// if there is one.
    #[verifier::external_body]
    fn lookup(&self, k: &String) -> (r: Option<(String, u64)>)
        ensures
            match r {
                Some(e) => table_entries(*self).contains_key(k@) && table_entries(*self)[k@] == (
                e.0@,
                e.1,
                ),
                None => !table_entries(*self).contains_key(k@),
            },
    {
        self.map.get(k).cloned()
    }

    /// Relies on hashbrown::HashMap::insert: the key now maps to the value,
    /// replacing what an equal key held; other keys keep theirs.
    #[verifier::external_body]
    fn put(&mut self, k: String, loc: String, touched: u64)
        ensures
            table_entries(*final(self)) == table_entries(*old(self)).insert(k@, (loc@, touched)),
    {
        self.map.insert(k, (loc, touched));
    }

    /// Relies on hashbrown::HashMap::remove: the key maps to nothing
    /// afterwards; other keys keep theirs.
    #[verifier::external_body]
    fn remove(&mut self, k: &String)
        ensures
            table_entries(*final(self)) == table_entries(*old(self)).remove(k@),
    {
        self.map.remove(k);
    }

    /// Relies on hashbrown::HashMap::keys: each key of the map is visited
    /// exactly once.
    #[verifier::external_body]
    fn keys(&self) -> (r: Vec<String>)
        ensures
            forall|i: int| 0 <= i < r@.len() ==> table_entries(*self).contains_key(#[trigger] r@[i]@),
            forall|k: Seq<char>| #[trigger]
                table_entries(*self).contains_key(k) ==> exists|i: int|
                    0 <= i < r@.len() && #[trigger] r@[i]@ == k,
            forall|i: int, j: int| 0 <= i < j < r@.len() ==> r@[i]@ != r@[j]@,
    {
        self.map.keys().cloned().collect()
    }
}

/// An entry last touched at `touched` has expired at `now` when a timeout is
/// set and more than `ttl` nanoseconds have passed since.
pub open spec fn is_expired(touched: u64, now: u64, ttl: u64) -> bool {
    ttl > 0 && now > touched && now - touched > ttl
}

/// The map after a read of `k` at `now`: a present entry is touched again,
/// its time never moving backwards; an absent key changes nothing.
pub open spec fn refreshed(m: CacheMap, k: Seq<char>, now: u64) -> CacheMap {
    if m.contains_key(k) {
        m.insert(k, (m[k].0, if now > m[k].1 { now } else { m[k].1 }))
    } else {
        m
    }
}

/// The map after a sweep at `now`: the entries that have not expired.
pub open spec fn swept(m: CacheMap, now: u64, ttl: u64) -> CacheMap {
    Map::new(|k: Seq<char>| m.contains_key(k) && !is_expired(m[k].1, now, ttl), |k: Seq<char>| m[k])
}

/// The keys that a sweep at `now` removes.
pub open spec fn expired_keys(m: CacheMap, now: u64, ttl: u64) -> Set<Seq<char>> {
    Set::new(|k: Seq<char>| m.contains_key(k) && is_expired(m[k].1, now, ttl))
}

/// An idle-timeout cache from target identifier to artifact location.
///
/// Every read of a present key touches it again; a sweep removes the entries
/// that nobody touched for longer than the timeout, and reports their keys so
/// that the caller can clean up after them. A timeout of zero means that
/// nothing ever expires.
pub struct Cache {
    table: EntryTable,
    data_timeout: u64,
}

impl View for Cache {
    type V = CacheMap;

    closed spec fn view(&self) -> CacheMap {
        table_entries(self.table)
    }
}

impl Cache {
    /// The idle timeout, in nanoseconds; zero disables expiry.
    pub closed spec fn ttl(&self) -> u64 {
        self.data_timeout
    }

    /// Creates an empty cache whose entries expire after `data_timeout`
    /// nanoseconds without a read (never, if it is zero).
    pub fn new(data_timeout: u64) -> (r: Self)
        ensures
            r@ == no_entries(),
            r.ttl() == data_timeout,
    {
        Cache { table: EntryTable::new(), data_timeout }
    }

    /// The idle timeout this cache was made with.
    pub fn data_timeout(&self) -> (r: u64)
        ensures
            r == self.ttl(),
    {
        self.data_timeout
    }

    /// Looks `k` up at time `now`. A present entry is touched, so that its
    /// idle clock starts over, and its location is returned; an absent key
    /// gives `None` and leaves the cache as it was.
    pub fn get(&mut self, k: &String, now: u64) -> (r: Option<String>)
        ensures
            final(self)@ == refreshed(old(self)@, k@, now),
            final(self).ttl() == old(self).ttl(),
            match r {
                Some(loc) => old(self)@.contains_key(k@) && loc@ == old(self)@[k@].0,
                None => !old(self)@.contains_key(k@),
            },
    {
        match self.table.lookup(k) {
            Some(entry) => {
                let touched = if now > entry.1 {
                    now
                } else {
                    entry.1
                };
                let loc = entry.0.clone();
                self.table.put(k.clone(), entry.0, touched);
                Some(loc)
            },
            None => None,
        }
    }

    /// Inserts `k` with location `v` at time `now`, replacing any entry the
    /// key had. A replaced entry is not reported as evicted.
    pub fn insert(&mut self, k: String, v: String, now: u64)
        ensures
            final(self)@ == old(self)@.insert(k@, (v@, now)),
            final(self).ttl() == old(self).ttl(),
    {
        self.table.put(k, v, now);
    }

    /// Removes every entry that has expired at `now` and returns the keys it
    /// removed, each once, so that the caller can run its eviction callback
    /// on each of them exactly once.
    pub fn evict_expired(&mut self, now: u64) -> (r: Vec<String>)
        ensures
            final(self)@ == swept(old(self)@, now, old(self).ttl()),
            final(self).ttl() == old(self).ttl(),
            forall|i: int| 0 <= i < r@.len() ==> expired_keys(old(self)@, now, old(self).ttl()).contains(#[trigger] r@[i]@),
            forall|k: Seq<char>| #[trigger]
                expired_keys(old(self)@, now, old(self).ttl()).contains(k) ==> exists|i: int|
                    0 <= i < r@.len() && #[trigger] r@[i]@ == k,
            forall|i: int, j: int| 0 <= i < j < r@.len() ==> r@[i]@ != r@[j]@,
    {
        let ghost m0 = self@;
        let ttl = self.data_timeout;
        let keys = self.table.keys();
        let mut dead: Vec<String> = Vec::new();
        let mut i: usize = 0;
        while i < keys.len()
            invariant
                i <= keys@.len(),
                self.data_timeout == ttl,
                ttl == old(self).ttl(),
                m0 == old(self)@,
                forall|a: int| 0 <= a < keys@.len() ==> m0.contains_key(#[trigger] keys@[a]@),
                forall|k: Seq<char>| #[trigger]
                    m0.contains_key(k) ==> exists|a: int| 0 <= a < keys@.len() && #[trigger] keys@[a]@ == k,
                forall|a: int, b: int| 0 <= a < b < keys@.len() ==> keys@[a]@ != keys@[b]@,
                self@ == Map::new(
                    |k: Seq<char>|
                        m0.contains_key(k) && !(is_expired(m0[k].1, now, ttl) && key_seen(keys@, i as int, k)),
                    |k: Seq<char>| m0[k],
                ),
                forall|d: int|
                    0 <= d < dead@.len() ==> key_seen(keys@, i as int, #[trigger] dead@[d]@) && expired_keys(m0, now, ttl).contains(dead@[d]@),
                forall|k: Seq<char>|
                    key_seen(keys@, i as int, k) && #[trigger] expired_keys(m0, now, ttl).contains(k) ==> exists|d: int|
                        0 <= d < dead@.len() && #[trigger] dead@[d]@ == k,
                forall|d: int, e: int| 0 <= d < e < dead@.len() ==> dead@[d]@ != dead@[e]@,
            decreases keys@.len() - i,
        {
            let key = &keys[i];
            proof {
                assert(m0.contains_key(keys@[i as int]@));
                assert(!key_seen(keys@, i as int, key@)) by {
                    if key_seen(keys@, i as int, key@) {
                        let a = choose|a: int| 0 <= a < i && #[trigger] keys@[a]@ == key@;
                        assert(keys@[a]@ != keys@[i as int]@);
                    }
                }
                assert(self@.contains_key(key@));
                lemma_key_seen_step(keys@, i as int);
            }
            let ghost dead0 = dead@;
            match self.table.lookup(key) {
                Some(entry) => {
                    if is_past(entry.1, now, ttl) {
                        self.table.remove(key);
                        dead.push(key.clone());
                    }
                },
                None => {},
            }
            proof {
                let n = dead@.len() - 1;
                assert forall|k: Seq<char>|
                    key_seen(keys@, i + 1, k) && #[trigger] expired_keys(m0, now, ttl).contains(k) implies exists|d: int|
                        0 <= d < dead@.len() && #[trigger] dead@[d]@ == k by {
                    if k == key@ {
                        assert(dead@[n]@ == k);
                    } else {
                        assert(key_seen(keys@, i as int, k));
                        let d = choose|d: int| 0 <= d < dead0.len() && #[trigger] dead0[d]@ == k;
                        assert(dead@[d] == dead0[d]);
                    }
                }
                assert(self@ =~= Map::new(
                    |k: Seq<char>|
                        m0.contains_key(k) && !(is_expired(m0[k].1, now, ttl) && key_seen(keys@, i + 1, k)),
                    |k: Seq<char>| m0[k],
                ));
            }
            i = i + 1;
        }
        proof {
            assert forall|k: Seq<char>| m0.contains_key(k) implies key_seen(keys@, i as int, k) by {
                let a = choose|a: int| 0 <= a < keys@.len() && #[trigger] keys@[a]@ == k;
            }
            assert(self@ =~= swept(m0, now, ttl));
        }
        dead
    }
}

/// Whether `k` is the view of one of the first `n` keys of `keys`.
spec fn key_seen(keys: Seq<String>, n: int, k: Seq<char>) -> bool {
    exists|a: int| 0 <= a < n && #[trigger] keys[a]@ == k
}

proof fn lemma_key_seen_step(keys: Seq<String>, n: int)
    requires
        0 <= n < keys.len(),
    ensures
        forall|k: Seq<char>| #[trigger] key_seen(keys, n + 1, k) == (key_seen(keys, n, k) || keys[n]@ == k),
{
    assert forall|k: Seq<char>| #[trigger] key_seen(keys, n + 1, k) implies (key_seen(keys, n, k) || keys[n]@ == k) by {
        let a = choose|a: int| 0 <= a < n + 1 && #[trigger] keys[a]@ == k;
        if a < n {
            assert(key_seen(keys, n, k));
        }
    }
    assert forall|k: Seq<char>| (key_seen(keys, n, k) || keys[n]@ == k) implies #[trigger] key_seen(keys, n + 1, k) by {
        if keys[n]@ == k {
            assert(0 <= n < n + 1 && keys[n]@ == k);
        } else {
            let a = choose|a: int| 0 <= a < n && #[trigger] keys[a]@ == k;
        }
    }
}

/// Idle expiry: with a timeout set, an entry that nobody read for longer than
/// the timeout is gone after a sweep, so the next read finds nothing.
pub proof fn lemma_idle_expiry(m: CacheMap, ttl: u64, k: Seq<char>, now: u64)
    requires
        ttl > 0,
        m.contains_key(k),
        now > m[k].1 + ttl,
    ensures
        !swept(m, now, ttl).contains_key(k),
        expired_keys(m, now, ttl).contains(k),
        refreshed(swept(m, now, ttl), k, now) == swept(m, now, ttl),
{
}

/// Reads of `k` at `times`, each after a sweep at the same time.
pub open spec fn read_at_times(m: CacheMap, k: Seq<char>, times: Seq<u64>, ttl: u64) -> CacheMap
    decreases times.len(),
{
    if times.len() == 0 {
        m
    } else {
        read_at_times(refreshed(swept(m, times[0], ttl), k, times[0]), k, times.drop_first(), ttl)
    }
}

/// Keep-alive: an entry that is read again within the timeout of its last
/// read, over and over, is never swept away and keeps its location, however
/// long this goes on.
pub proof fn lemma_keepalive(m: CacheMap, k: Seq<char>, times: Seq<u64>, ttl: u64)
    requires
        m.contains_key(k),
        times.len() > 0 ==> times[0] <= m[k].1 + ttl,
        forall|i: int| 0 <= i < times.len() - 1 ==> #[trigger] times[i + 1] <= times[i] + ttl,
    ensures
        read_at_times(m, k, times, ttl).contains_key(k),
        read_at_times(m, k, times, ttl)[k].0 == m[k].0,
    decreases times.len(),
{
    if times.len() > 0 {
        let now = times[0];
        let m1 = refreshed(swept(m, now, ttl), k, now);
        assert(swept(m, now, ttl).contains_key(k));
        assert(m1.contains_key(k) && m1[k].0 == m[k].0 && m1[k].1 >= now);
        let rest = times.drop_first();
        assert forall|i: int| 0 <= i < rest.len() - 1 implies #[trigger] rest[i + 1] <= rest[i] + ttl by {
            assert(times[i + 1 + 1] <= times[i + 1] + ttl);
        }
        if rest.len() > 0 {
            assert(times[0int + 1] <= times[0int] + ttl);
        }
        lemma_keepalive(m1, k, rest, ttl);
    }
}

/// No timeout: with a timeout of zero a sweep removes nothing, at any time.
pub proof fn lemma_no_timeout(m: CacheMap, now: u64)
    ensures
        swept(m, now, 0) == m,
        expired_keys(m, now, 0) == Set::<Seq<char>>::empty(),
{
    assert(swept(m, now, 0) =~= m);
    assert(expired_keys(m, now, 0) =~= Set::<Seq<char>>::empty());
}

/// Overwriting a key is no eviction: the replaced entry is not reported by a
/// sweep at the time of the overwrite, and the new location is kept.
pub proof fn lemma_overwrite_not_evicted(m: CacheMap, k: Seq<char>, loc: Seq<char>, now: u64, ttl: u64)
    ensures
        !expired_keys(m.insert(k, (loc, now)), now, ttl).contains(k),
        swept(m.insert(k, (loc, now)), now, ttl).contains_key(k),
        swept(m.insert(k, (loc, now)), now, ttl)[k].0 == loc,
{
}

/// A read restarts the idle clock of a present entry, which is then not
/// expired at the time of the read; a read of an absent key changes nothing.
pub proof fn lemma_read_refreshes(m: CacheMap, k: Seq<char>, now: u64, ttl: u64)
    ensures
        m.contains_key(k) ==> refreshed(m, k, now)[k].1 >= now && !is_expired(
            refreshed(m, k, now)[k].1,
            now,
            ttl,
        ),
        !m.contains_key(k) ==> refreshed(m, k, now) == m,
{
}

/// Whether an entry touched at `touched` has expired at `now`.
fn is_past(touched: u64, now: u64, ttl: u64) -> (r: bool)
    ensures
        r == is_expired(touched, now, ttl),
{
    ttl > 0 && now > touched && now - touched > ttl
}

} // verus!
