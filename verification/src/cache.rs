//! Transient-copy cache: bounded, time-to-idle bookkeeping of forwarded
//! message copies.
//!
//! A download forwards the stored message into a temporary channel and
//! registers the forwarded copy here, keyed by the original message
//! identifier. An entry that stays idle past the timeout, or that is pushed
//! out when the cache is full, is handed back to the caller as a cleanup
//! target: the surrounding process then issues a best-effort delete of the
//! transient copy against the backend. The cache itself is bookkeeping only;
//! it never performs I/O, and losing an entry costs tidiness, not
//! correctness.
//!
//! Recency lives in each entry's `last_access` stamp, not in storage order;
//! the caller supplies a monotone clock reading with every operation.

use vstd::prelude::*;

verus! {

/// One tracked transient copy: the original message's identifier, the
/// forwarded copy's identifier, and the time of the last access.
#[derive(Clone, Copy, Debug, PartialEq, Eq, Structural)]
pub struct CacheEntry {
    pub key: i32,
    pub value: i32,
    pub last_access: u64,
}

/// The entry a registration at time `now` writes.
pub open spec fn fresh_entry(key: i32, value: i32, now: u64) -> CacheEntry {
    CacheEntry { key, value, last_access: now }
}

/// No two entries track the same original message.
pub open spec fn keys_distinct(s: Seq<CacheEntry>) -> bool {
    forall|i: int, j: int| 0 <= i < j < s.len() ==> s[i].key != s[j].key
}

/// Whether some entry tracks key `k`.
pub open spec fn has_key(s: Seq<CacheEntry>, k: i32) -> bool {
    exists|i: int| 0 <= i < s.len() && s[i].key == k
}

/// Whether the entry at index `m` is least recently accessed.
pub open spec fn min_access_at(s: Seq<CacheEntry>, m: int) -> bool {
    &&& 0 <= m < s.len()
    &&& forall|i: int| 0 <= i < s.len() ==> s[m].last_access <= s[i].last_access
}

/// Whether `e` has sat idle past `timeout` as of time `now`.
pub open spec fn stale_at(e: CacheEntry, now: u64, timeout: u64) -> bool {
    now - e.last_access > timeout
}

/// How one registration changes the tracked entries. A key already present
/// is overwritten in place (last write wins) and nothing is evicted; a new
/// key joins directly while there is room; when the cache is full, a least
/// recently accessed entry makes way and is reported as evicted.
pub open spec fn insert_step(
    pre: Seq<CacheEntry>,
    cap: nat,
    key: i32,
    value: i32,
    now: u64,
    post: Seq<CacheEntry>,
    evicted: Seq<CacheEntry>,
) -> bool {
    if has_key(pre, key) {
        exists|m: int|
            {
                &&& 0 <= m < pre.len()
                &&& #[trigger] pre[m].key == key
                &&& post == pre.update(m, fresh_entry(key, value, now))
                &&& evicted == Seq::<CacheEntry>::empty()
            }
    } else if pre.len() < cap {
        &&& post == pre.push(fresh_entry(key, value, now))
        &&& evicted == Seq::<CacheEntry>::empty()
    } else {
        exists|m: int|
            {
                &&& #[trigger] min_access_at(pre, m)
                &&& post == pre.update(m, fresh_entry(key, value, now))
                &&& evicted == seq![pre[m]]
            }
    }
}

/// The bounded, time-to-idle cache of transient copies.
pub struct TransientCopyCache {
    entries: Vec<CacheEntry>,
    capacity: usize,
    idle_timeout_secs: u64,
    clock: u64,
}

impl TransientCopyCache {
    /// The tracked entries, in storage order.
    pub closed spec fn entries_seq(self) -> Seq<CacheEntry> {
        self.entries@
    }

    /// The configured maximum number of live entries.
    pub closed spec fn cap(self) -> nat {
        self.capacity as nat
    }

    /// The configured idle timeout, in seconds.
    pub closed spec fn timeout(self) -> u64 {
        self.idle_timeout_secs
    }

    /// The latest clock reading any operation supplied.
    pub closed spec fn clock(self) -> u64 {
        self.clock
    }

    /// Internal consistency: a positive capacity never exceeded, one entry
    /// per key, and no access stamp from the future.
    pub closed spec fn wf(self) -> bool {
        &&& self.capacity >= 1
        &&& self.entries@.len() <= self.capacity
        &&& keys_distinct(self.entries@)
        &&& forall|i: int|
            0 <= i < self.entries@.len() ==> #[trigger] self.entries@[i].last_access <= self.clock
    }

    /// An empty cache with the given bounds.
    pub fn new(capacity: usize, idle_timeout_secs: u64) -> (r: Self)
        requires
            capacity >= 1,
        ensures
            r.wf(),
            r.entries_seq() == Seq::<CacheEntry>::empty(),
            r.cap() == capacity,
            r.timeout() == idle_timeout_secs,
            r.clock() == 0,
    {
        TransientCopyCache { entries: Vec::new(), capacity, idle_timeout_secs, clock: 0 }
    }

    /// The latest clock reading seen; callers keep their readings monotone
    /// against this.
    pub fn current_clock(&self) -> (r: u64)
        ensures
            r == self.clock(),
    {
        self.clock
    }

    /// How many transient copies are tracked right now.
    pub fn len(&self) -> (r: usize)
        ensures
            r == self.entries_seq().len(),
    {
        self.entries.len()
    }

    /// Registers the transient copy `value` for original message `key` at
    /// time `now`, returning the entries evicted to make room; the caller
    /// owes each returned entry one cleanup attempt.
    pub fn insert(&mut self, key: i32, value: i32, now: u64) -> (evicted: Vec<CacheEntry>)
        requires
            old(self).wf(),
            now >= old(self).clock(),
        ensures
            final(self).wf(),
            final(self).cap() == old(self).cap(),
            final(self).timeout() == old(self).timeout(),
            final(self).clock() == now,
            insert_step(
                old(self).entries_seq(),
                old(self).cap(),
                key,
                value,
                now,
                final(self).entries_seq(),
                evicted@,
            ),
    {
        self.clock = now;
        let replaced = find_key_index(&self.entries, key);
        match replaced {
            Some(m) => {
                self.entries[m] = CacheEntry { key, value, last_access: now };
                proof {
                    assert(insert_step(
                        old(self).entries_seq(),
                        old(self).cap(),
                        key,
                        value,
                        now,
                        self.entries@,
                        Seq::<CacheEntry>::empty(),
                    ));
                }
                Vec::new()
            },
            None => {
                if self.entries.len() < self.capacity {
                    self.entries.push(CacheEntry { key, value, last_access: now });
                    Vec::new()
                } else {
                    let m = min_access_index(&self.entries);
                    let victim = self.entries[m];
                    self.entries[m] = CacheEntry { key, value, last_access: now };
                    let mut evicted: Vec<CacheEntry> = Vec::new();
                    evicted.push(victim);
                    proof {
                        assert(evicted@ =~= seq![victim]);
                    }
                    evicted
                }
            },
        }
    }

    /// Looks up the transient copy registered for `key`, refreshing its idle
    /// clock at time `now` (time-to-idle: a read keeps the entry alive).
    pub fn lookup(&mut self, key: i32, now: u64) -> (r: Option<i32>)
        requires
            old(self).wf(),
            now >= old(self).clock(),
        ensures
            final(self).wf(),
            final(self).cap() == old(self).cap(),
            final(self).timeout() == old(self).timeout(),
            final(self).clock() == now,
            (r matches Some(v) ==> exists|m: int|
                {
                    &&& 0 <= m < old(self).entries_seq().len()
                    &&& (#[trigger] old(self).entries_seq()[m]).key == key
                    &&& old(self).entries_seq()[m].value == v
                    &&& final(self).entries_seq() == old(self).entries_seq().update(
                        m,
                        fresh_entry(key, v, now),
                    )
                }),
            (r is None ==> !has_key(old(self).entries_seq(), key) && final(self).entries_seq()
                == old(self).entries_seq()),
    {
        self.clock = now;
        let found = find_key_index(&self.entries, key);
        match found {
            Some(m) => {
                let v = self.entries[m].value;
                self.entries[m] = CacheEntry { key, value: v, last_access: now };
                proof {
                    assert((#[trigger] old(self).entries_seq()[m as int]).key == key
                        && old(self).entries_seq()[m as int].value == v && self.entries@
                        == old(self).entries_seq().update(m as int, fresh_entry(key, v, now)));
                }
                Some(v)
            },
            None => None,
        }
    }

    /// Drops every entry that has sat idle past the timeout as of time
    /// `now`, returning them in storage order; the caller owes each returned
    /// entry one cleanup attempt. Entries accessed within the timeout stay,
    /// untouched.
    #[verifier::loop_isolation(false)]
    pub fn expire_idle(&mut self, now: u64) -> (expired: Vec<CacheEntry>)
        requires
            old(self).wf(),
            now >= old(self).clock(),
        ensures
            final(self).wf(),
            final(self).cap() == old(self).cap(),
            final(self).timeout() == old(self).timeout(),
            final(self).clock() == now,
            final(self).entries_seq() == old(self).entries_seq().filter(
                (|e: CacheEntry| !stale_at(e, now, old(self).timeout())),
            ),
            expired@ == old(self).entries_seq().filter(
                (|e: CacheEntry| stale_at(e, now, old(self).timeout())),
            ),
    {
        let ghost keep_p = |e: CacheEntry| !stale_at(e, now, old(self).timeout());
        let ghost drop_p = |e: CacheEntry| stale_at(e, now, old(self).timeout());
        let n = self.entries.len();
        let mut kept: Vec<CacheEntry> = Vec::new();
        let mut expired: Vec<CacheEntry> = Vec::new();
        let mut i: usize = 0;
        while i < n
            invariant
                i <= n,
                self.entries@ == old(self).entries_seq(),
                kept@ == self.entries@.take(i as int).filter(keep_p),
                expired@ == self.entries@.take(i as int).filter(drop_p),
            decreases n - i,
        {
            let e = self.entries[i];
            proof {
                assert(self.entries@.take(i + 1) =~= self.entries@.take(i as int).push(e));
                self.entries@.take(i as int).lemma_filter_push(e, keep_p);
                self.entries@.take(i as int).lemma_filter_push(e, drop_p);
            }
            if now - e.last_access > self.idle_timeout_secs {
                expired.push(e);
            } else {
                kept.push(e);
            }
            i += 1;
        }
        proof {
            assert(self.entries@.take(n as int) =~= self.entries@);
        }
        self.entries = kept;
        self.clock = now;
        proof {
            lemma_filter_carries_facts(old(self).entries_seq(), keep_p);
        }
        expired
    }
}

/// The index of the entry tracking `key`, if any.
fn find_key_index(entries: &Vec<CacheEntry>, key: i32) -> (r: Option<usize>)
    ensures
        (r matches Some(m) ==> m < entries@.len() && entries@[m as int].key == key),
        r is None ==> !has_key(entries@, key),
{
    let n = entries.len();
    let mut i: usize = 0;
    while i < n
        invariant
            i <= n,
            n == entries@.len(),
            forall|j: int| 0 <= j < i ==> (#[trigger] entries@[j]).key != key,
        decreases n - i,
    {
        if entries[i].key == key {
            return Some(i);
        }
        i += 1;
    }
    None
}

/// The index of a least recently accessed entry.
fn min_access_index(entries: &Vec<CacheEntry>) -> (m: usize)
    requires
        entries@.len() >= 1,
    ensures
        min_access_at(entries@, m as int),
{
    let n = entries.len();
    let mut m: usize = 0;
    let mut i: usize = 1;
    while i < n
        invariant
            1 <= i <= n,
            n == entries@.len(),
            m < i,
            forall|j: int| 0 <= j < i ==> entries@[m as int].last_access <= (#[trigger] entries@[j]).last_access,
        decreases n - i,
    {
        if entries[i].last_access < entries[m].last_access {
            m = i;
        }
        i += 1;
    }
    m
}

/// Every element of a filtered sequence is an element of the original, and
/// filtering keeps keys distinct when they were.
proof fn lemma_filter_carries_facts(s: Seq<CacheEntry>, p: spec_fn(CacheEntry) -> bool)
    ensures
        forall|i: int|
            0 <= i < s.filter(p).len() ==> exists|j: int|
                0 <= j < s.len() && s[j] == #[trigger] s.filter(p)[i],
        keys_distinct(s) ==> keys_distinct(s.filter(p)),
    decreases s.len(),
{
    reveal(Seq::filter);
    if s.len() > 0 {
        let sub = s.drop_last();
        lemma_filter_carries_facts(sub, p);
        assert(forall|j: int| 0 <= j < sub.len() ==> sub[j] == s[j]);
        if keys_distinct(s) {
            assert(keys_distinct(sub));
        }
    }
}

/// Law: a registered transient copy left idle past the timeout is cleaned up
/// exactly once, with the value that was registered: the expiry sweep at
/// time `t2` reports the entry written at time `t1`, no other entry for that
/// key exists to report, and the key is gone afterwards.
pub proof fn lemma_idle_expiry_cleans_once(
    pre: Seq<CacheEntry>,
    cap: nat,
    k: i32,
    v: i32,
    t1: u64,
    mid: Seq<CacheEntry>,
    ev: Seq<CacheEntry>,
    t2: u64,
    timeout: u64,
    post: Seq<CacheEntry>,
    expired: Seq<CacheEntry>,
)
    requires
        keys_distinct(pre),
        cap >= 1,
        pre.len() <= cap,
        insert_step(pre, cap, k, v, t1, mid, ev),
        post == mid.filter((|e: CacheEntry| !stale_at(e, t2, timeout))),
        expired == mid.filter((|e: CacheEntry| stale_at(e, t2, timeout))),
        t1 <= t2,
        t2 - t1 > timeout,
    ensures
        expired.contains(fresh_entry(k, v, t1)),
        keys_distinct(expired),
        forall|i: int|
            0 <= i < expired.len() && (#[trigger] expired[i]).key == k ==> expired[i]
                == fresh_entry(k, v, t1),
        !has_key(post, k),
{
    let drop_p = |e: CacheEntry| stale_at(e, t2, timeout);
    let keep_p = |e: CacheEntry| !stale_at(e, t2, timeout);
    lemma_insert_step_shape(pre, cap, k, v, t1, mid, ev);
    let m = choose|m: int|
        0 <= m < mid.len() && (#[trigger] mid[m]) == fresh_entry(k, v, t1) && forall|i: int|
            0 <= i < mid.len() && (#[trigger] mid[i]).key == k ==> i == m;
    assert(drop_p(mid[m]));
    mid.lemma_filter_contains(drop_p, m);
    lemma_filter_carries_facts(mid, drop_p);
    lemma_filter_carries_facts(mid, keep_p);
    assert forall|i: int| 0 <= i < expired.len() && (#[trigger] expired[i]).key == k implies expired[i]
        == fresh_entry(k, v, t1) by {
        let j = choose|j: int| 0 <= j < mid.len() && mid[j] == expired[i];
        assert(j == m);
    }
    assert forall|i: int| 0 <= i < post.len() implies (#[trigger] post[i]).key != k by {
        let j = choose|j: int| 0 <= j < mid.len() && mid[j] == post[i];
        mid.lemma_filter_pred(keep_p, i);
        if post[i].key == k {
            assert(j == m);
        }
    }
}

/// Law: re-registering the same key keeps only the most recent transient
/// value. The second registration evicts nothing, and from then on the only
/// entry for the key carries the second value; whatever the first
/// registration evicted was some other key's entry.
pub proof fn lemma_reinsert_targets_latest(
    pre: Seq<CacheEntry>,
    cap: nat,
    k: i32,
    v1: i32,
    t1: u64,
    s1: Seq<CacheEntry>,
    e1: Seq<CacheEntry>,
    v2: i32,
    t2: u64,
    s2: Seq<CacheEntry>,
    e2: Seq<CacheEntry>,
)
    requires
        keys_distinct(pre),
        cap >= 1,
        pre.len() <= cap,
        insert_step(pre, cap, k, v1, t1, s1, e1),
        insert_step(s1, cap, k, v2, t2, s2, e2),
    ensures
        e2 == Seq::<CacheEntry>::empty(),
        s2.contains(fresh_entry(k, v2, t2)),
        forall|i: int|
            0 <= i < s2.len() && (#[trigger] s2[i]).key == k ==> s2[i] == fresh_entry(k, v2, t2),
        forall|i: int| 0 <= i < e1.len() ==> (#[trigger] e1[i]).key != k,
{
    lemma_insert_step_shape(pre, cap, k, v1, t1, s1, e1);
    assert(has_key(s1, k)) by {
        let m = choose|m: int|
            0 <= m < s1.len() && (#[trigger] s1[m]) == fresh_entry(k, v1, t1) && forall|i: int|
                0 <= i < s1.len() && (#[trigger] s1[i]).key == k ==> i == m;
        assert(s1[m].key == k);
    }
    lemma_insert_step_shape(s1, cap, k, v2, t2, s2, e2);
    let m2 = choose|m: int|
        0 <= m < s2.len() && (#[trigger] s2[m]) == fresh_entry(k, v2, t2) && forall|i: int|
            0 <= i < s2.len() && (#[trigger] s2[i]).key == k ==> i == m;
    assert(s2[m2] == fresh_entry(k, v2, t2));
    assert forall|i: int| 0 <= i < e1.len() implies (#[trigger] e1[i]).key != k by {
        if has_key(pre, k) {
            let m = choose|m: int|
                0 <= m < pre.len() && (#[trigger] pre[m]).key == k && s1 == pre.update(
                    m,
                    fresh_entry(k, v1, t1),
                ) && e1 == Seq::<CacheEntry>::empty();
        } else if pre.len() < cap {
        } else {
            let m = choose|m: int|
                #[trigger] min_access_at(pre, m) && s1 == pre.update(m, fresh_entry(k, v1, t1))
                    && e1 == seq![pre[m]];
            assert(e1[i] == pre[m]);
        }
    }
}

/// Law: the cache never exceeds its configured capacity, and registering a
/// new key into a full cache evicts a least recently accessed entry at once,
/// ahead of any idle timeout.
pub proof fn lemma_capacity_never_exceeded(
    pre: Seq<CacheEntry>,
    cap: nat,
    k: i32,
    v: i32,
    now: u64,
    post: Seq<CacheEntry>,
    ev: Seq<CacheEntry>,
)
    requires
        keys_distinct(pre),
        cap >= 1,
        pre.len() <= cap,
        insert_step(pre, cap, k, v, now, post, ev),
    ensures
        post.len() <= cap,
        pre.len() == cap && !has_key(pre, k) ==> {
            &&& ev.len() == 1
            &&& has_key(pre, ev[0].key)
            &&& forall|i: int| 0 <= i < pre.len() ==> ev[0].last_access <= (#[trigger] pre[i]).last_access
        },
{
    if has_key(pre, k) {
        let m = choose|m: int|
            0 <= m < pre.len() && (#[trigger] pre[m]).key == k && post == pre.update(
                m,
                fresh_entry(k, v, now),
            ) && ev == Seq::<CacheEntry>::empty();
        assert(post.len() == pre.len());
    } else if pre.len() < cap {
    } else {
        let m = choose|m: int|
            #[trigger] min_access_at(pre, m) && post == pre.update(m, fresh_entry(k, v, now)) && ev
                == seq![pre[m]];
        assert(ev[0] == pre[m]);
        assert(has_key(pre, ev[0].key));
    }
}

/// Law: expiry is decided entry by entry. Whether a tracked copy is
/// reported expired or kept depends on that entry's own idle time alone,
/// never on what else the cache holds, so cleanups for distinct keys are
/// independent of one another.
pub proof fn lemma_expiry_is_per_entry(
    pre: Seq<CacheEntry>,
    now: u64,
    timeout: u64,
    post: Seq<CacheEntry>,
    expired: Seq<CacheEntry>,
    j: int,
)
    requires
        keys_distinct(pre),
        post == pre.filter((|e: CacheEntry| !stale_at(e, now, timeout))),
        expired == pre.filter((|e: CacheEntry| stale_at(e, now, timeout))),
        0 <= j < pre.len(),
    ensures
        stale_at(pre[j], now, timeout) ==> expired.contains(pre[j]) && !post.contains(pre[j]),
        !stale_at(pre[j], now, timeout) ==> post.contains(pre[j]) && !expired.contains(pre[j]),
{
    let drop_p = |e: CacheEntry| stale_at(e, now, timeout);
    let keep_p = |e: CacheEntry| !stale_at(e, now, timeout);
    if drop_p(pre[j]) {
        pre.lemma_filter_contains(drop_p, j);
        if post.contains(pre[j]) {
            let i = choose|i: int| 0 <= i < post.len() && post[i] == pre[j];
            pre.lemma_filter_pred(keep_p, i);
        }
    } else {
        pre.lemma_filter_contains(keep_p, j);
        if expired.contains(pre[j]) {
            let i = choose|i: int| 0 <= i < expired.len() && expired[i] == pre[j];
            pre.lemma_filter_pred(drop_p, i);
        }
    }
}

/// After any registration the written entry is present, is the only entry
/// for its key, and keys stay distinct.
proof fn lemma_insert_step_shape(
    pre: Seq<CacheEntry>,
    cap: nat,
    k: i32,
    v: i32,
    now: u64,
    post: Seq<CacheEntry>,
    ev: Seq<CacheEntry>,
)
    requires
        keys_distinct(pre),
        insert_step(pre, cap, k, v, now, post, ev),
    ensures
        keys_distinct(post),
        exists|m: int|
            0 <= m < post.len() && (#[trigger] post[m]) == fresh_entry(k, v, now) && forall|i: int|
                0 <= i < post.len() && (#[trigger] post[i]).key == k ==> i == m,
{
    if has_key(pre, k) {
        let m = choose|m: int|
            0 <= m < pre.len() && (#[trigger] pre[m]).key == k && post == pre.update(
                m,
                fresh_entry(k, v, now),
            ) && ev == Seq::<CacheEntry>::empty();
        assert(post[m] == fresh_entry(k, v, now));
        assert forall|i: int| 0 <= i < post.len() && (#[trigger] post[i]).key == k implies i == m by {
            if i != m {
                assert(post[i] == pre[i]);
            }
        }
    } else if pre.len() < cap {
        let m = pre.len() as int;
        assert(post[m] == fresh_entry(k, v, now));
        assert forall|i: int| 0 <= i < post.len() && (#[trigger] post[i]).key == k implies i == m by {
            if i != m {
                assert(post[i] == pre[i]);
                assert(has_key(pre, k));
            }
        }
    } else {
        let m = choose|m: int|
            #[trigger] min_access_at(pre, m) && post == pre.update(m, fresh_entry(k, v, now)) && ev
                == seq![pre[m]];
        assert(post[m] == fresh_entry(k, v, now));
        assert forall|i: int| 0 <= i < post.len() && (#[trigger] post[i]).key == k implies i == m by {
            if i != m {
                assert(post[i] == pre[i]);
                assert(has_key(pre, k));
            }
        }
    }
}

} // verus!
