//! The time-to-live cache of OS probe results, one entry per VM. An entry is
//! valid while less than the TTL has passed since it was fetched; an expired entry
//! counts as absent and is replaced by the next result recorded for its VM.
//! Negative results (`None`) are cached like names.

use vstd::prelude::*;

verus! {

/// One VM's probe result and when it was fetched, in milliseconds.
#[derive(Debug)]
pub struct CacheEntry {
    pub vm: String,
    pub os: Option<String>,
    pub fetched_at_ms: u64,
}

/// What an optional string holds.
pub open spec fn opt_view(o: Option<String>) -> Option<Seq<char>> {
    match o {
        Some(s) => Some(s@),
        None => None,
    }
}

/// The entry recorded last for `vm` among `entries`, as (result, fetch time).
pub open spec fn find(entries: Seq<CacheEntry>, vm: Seq<char>) -> Option<(Option<Seq<char>>, u64)>
    decreases entries.len(),
{
    if entries.len() == 0 {
        None
    } else if entries.last().vm@ == vm {
        Some((opt_view(entries.last().os), entries.last().fetched_at_ms))
    } else {
        find(entries.drop_last(), vm)
    }
}

/// Milliseconds from `fetched` to `now`; none when the clock reads earlier.
pub open spec fn elapsed(fetched: u64, now: u64) -> nat {
    if now >= fetched {
        (now - fetched) as nat
    } else {
        0
    }
}

/// What a lookup at `now` finds in `m` under `ttl`: the cached result when it is
/// still valid, else nothing, which calls for a probe.
pub open spec fn cached(
    m: Map<Seq<char>, (Option<Seq<char>>, u64)>,
    ttl: u64,
    vm: Seq<char>,
    now: u64,
) -> Option<Option<Seq<char>>> {
    if m.contains_key(vm) && elapsed(m[vm].1, now) < ttl {
        Some(m[vm].0)
    } else {
        None
    }
}

proof fn lemma_find_push(s: Seq<CacheEntry>, e: CacheEntry, k: Seq<char>)
    ensures
        find(s.push(e), k) == (if k == e.vm@ {
            Some((opt_view(e.os), e.fetched_at_ms))
        } else {
            find(s, k)
        }),
{
    assert(s.push(e).drop_last() =~= s);
}

proof fn lemma_find_update(s: Seq<CacheEntry>, i: int, e: CacheEntry, k: Seq<char>)
    requires
        0 <= i < s.len(),
        s[i].vm@ == e.vm@,
        forall|j: int| i < j < s.len() ==> (#[trigger] s[j]).vm@ != e.vm@,
    ensures
        find(s.update(i, e), k) == (if k == e.vm@ {
            Some((opt_view(e.os), e.fetched_at_ms))
        } else {
            find(s, k)
        }),
    decreases s.len(),
{
    let t = s.update(i, e);
    if i == s.len() - 1 {
        assert(t.drop_last() =~= s.drop_last());
    } else {
        assert(t.drop_last() =~= s.drop_last().update(i, e));
        assert(s.last() == s[s.len() - 1]);
        lemma_find_update(s.drop_last(), i, e, k);
    }
}

/// The cache of probe results, with one TTL for all entries.
pub struct ProbeCache {
    ttl_ms: u64,
    entries: Vec<CacheEntry>,
}

impl ProbeCache {
    /// Milliseconds an entry stays valid.
    pub closed spec fn ttl(&self) -> u64 {
        self.ttl_ms
    }

    /// Milliseconds an entry stays valid.
    pub fn ttl_ms(&self) -> (r: u64)
        ensures
            r == self.ttl(),
    {
        self.ttl_ms
    }

    /// VM name to (result, fetch time in milliseconds), for each VM with an entry.
    pub closed spec fn view(&self) -> Map<Seq<char>, (Option<Seq<char>>, u64)> {
        Map::new(|vm: Seq<char>| find(self.entries@, vm) is Some, |vm: Seq<char>| find(self.entries@, vm)->0)
    }

    /// An empty cache whose entries stay valid for `ttl_ms` milliseconds.
    pub fn new(ttl_ms: u64) -> (r: ProbeCache)
        ensures
            r.ttl() == ttl_ms,
            r@ == Map::<Seq<char>, (Option<Seq<char>>, u64)>::empty(),
    {
        let r = ProbeCache { ttl_ms, entries: Vec::new() };
        assert(r@ =~= Map::<Seq<char>, (Option<Seq<char>>, u64)>::empty());
        r
    }

    /// Index of the entry recorded last for `vm`.
    fn position(&self, vm: &String) -> (r: Option<usize>)
        ensures
            r is None ==> find(self.entries@, vm@) is None,
            r is Some ==> r->0 < self.entries@.len() && self.entries@[r->0 as int].vm@ == vm@
                && (forall|j: int| r->0 < j < self.entries@.len()
                    ==> (#[trigger] self.entries@[j]).vm@ != vm@),
    {
        let mut j = self.entries.len();
        assert(self.entries@.subrange(0, j as int) =~= self.entries@);
        while j > 0
            invariant
                j <= self.entries@.len(),
                find(self.entries@, vm@) == find(self.entries@.subrange(0, j as int), vm@),
                forall|k: int| j <= k < self.entries@.len() ==> (#[trigger] self.entries@[k]).vm@ != vm@,
            decreases j,
        {
            let ghost pre = self.entries@.subrange(0, j as int);
            assert(pre.drop_last() =~= self.entries@.subrange(0, j - 1));
            if self.entries[j - 1].vm == *vm {
                return Some(j - 1);
            }
            j -= 1;
        }
        None
    }

    /// Starts getting the OS of `vm` at `now_ms`: the cached result when there is a
    /// valid one, a hit that needs no probe; `None` is a miss that asks for one,
    /// to be ended with `finish_probe`.
    pub fn lookup(&self, vm: &str, now_ms: u64) -> (r: Option<Option<String>>)
        ensures
            r is Some == cached(self@, self.ttl(), vm@, now_ms) is Some,
            r is Some ==> opt_view(r->0) == cached(self@, self.ttl(), vm@, now_ms)->0,
    {
        let key = String::from_str(vm);
        match self.position(&key) {
            None => None,
            Some(i) => {
                let e = &self.entries[i];
                proof {
                    let s = self.entries@;
                    lemma_find_update(s, i as int, s[i as int], vm@);
                    assert(s.update(i as int, s[i as int]) =~= s);
                }
                let age = if now_ms >= e.fetched_at_ms {
                    now_ms - e.fetched_at_ms
                } else {
                    0
                };
                if age < self.ttl_ms {
                    Some(
                        match &e.os {
                            Some(s) => Some(s.clone()),
                            None => None,
                        },
                    )
                } else {
                    None
                }
            },
        }
    }

    /// Records `os` as the result for `vm`, fetched at `now_ms`, replacing what was
    /// there.
    pub fn record(&mut self, vm: &str, os: Option<String>, now_ms: u64)
        ensures
            final(self).ttl() == old(self).ttl(),
            final(self)@ == old(self)@.insert(vm@, (opt_view(os), now_ms)),
    {
        let key = String::from_str(vm);
        let e = CacheEntry { vm: String::from_str(vm), os, fetched_at_ms: now_ms };
        let ghost s = self.entries@;
        let ghost ev = e;
        match self.position(&key) {
            Some(i) => {
                self.entries.set(i, e);
                proof {
                    assert forall|k: Seq<char>| find(self.entries@, k) == (if k == vm@ {
                        Some((opt_view(os), now_ms))
                    } else {
                        find(s, k)
                    }) by {
                        lemma_find_update(s, i as int, ev, k);
                    }
                }
            },
            None => {
                self.entries.push(e);
                proof {
                    assert forall|k: Seq<char>| find(self.entries@, k) == (if k == vm@ {
                        Some((opt_view(os), now_ms))
                    } else {
                        find(s, k)
                    }) by {
                        lemma_find_push(s, ev, k);
                    }
                }
            },
        }
        assert(self@ =~= old(self)@.insert(vm@, (opt_view(os), now_ms)));
    }
}

impl ProbeCache {
    /// Ends a probe that a miss asked for: records its result for `vm`, a failed
    /// probe (`None`) included, and hands that result back.
    pub fn finish_probe(&mut self, vm: &str, os: Option<String>, now_ms: u64) -> (r: Option<String>)
        ensures
            final(self).ttl() == old(self).ttl(),
            final(self)@ == old(self)@.insert(vm@, (opt_view(os), now_ms)),
            opt_view(r) == opt_view(os),
    {
        let back = match &os {
            Some(s) => Some(s.clone()),
            None => None,
        };
        self.record(vm, os, now_ms);
        back
    }
}

/// Within the TTL a recorded result is found again: a second lookup is a hit and
/// calls for no probe.
pub proof fn lemma_hit_within_ttl(
    m: Map<Seq<char>, (Option<Seq<char>>, u64)>,
    ttl: u64,
    vm: Seq<char>,
    os: Option<Seq<char>>,
    fetched: u64,
    now: u64,
)
    requires
        elapsed(fetched, now) < ttl,
    ensures
        cached(m.insert(vm, (os, fetched)), ttl, vm, now) == Some(os),
{
}

/// Once the TTL has passed, a recorded result is no longer found: the lookup calls
/// for a new probe.
pub proof fn lemma_miss_after_ttl(
    m: Map<Seq<char>, (Option<Seq<char>>, u64)>,
    ttl: u64,
    vm: Seq<char>,
    os: Option<Seq<char>>,
    fetched: u64,
    now: u64,
)
    requires
        elapsed(fetched, now) >= ttl,
    ensures
        cached(m.insert(vm, (os, fetched)), ttl, vm, now) is None,
{
}

/// A failed probe is cached too: within the TTL, a lookup after recording `None`
/// is a hit that holds `None`, so the unreachable guest is not probed again.
pub proof fn lemma_negative_result_cached(
    m: Map<Seq<char>, (Option<Seq<char>>, u64)>,
    ttl: u64,
    vm: Seq<char>,
    fetched: u64,
    now: u64,
)
    requires
        elapsed(fetched, now) < ttl,
    ensures
        cached(m.insert(vm, (None, fetched)), ttl, vm, now) == Some(None::<Seq<char>>),
{
}

} // verus!
