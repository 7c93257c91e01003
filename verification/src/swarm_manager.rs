//! The table of running network swarms, one per TLD: which swarm a request
//! reuses, when one is started, and which idle swarms are shut down.

use vstd::prelude::*;

use crate::keyed::KeyedList;
use crate::types::{strings_view, NetworkConfig};

verus! {

broadcast use vstd::string::group_string_axioms;

/// A running swarm: the handle that commands reach it by, and when it was
/// last used.
#[derive(Debug)]
pub struct SwarmSlot<H> {
    /// The handle of the swarm.
    pub handle: H,
    /// When the swarm was last used, in milliseconds of the node's clock.
    pub last_used: u64,
}

/// The running swarms, by TLD.
#[derive(Debug)]
pub struct SwarmTable<H> {
    slots: KeyedList<SwarmSlot<H>>,
}

/// How long ago a swarm was last used: zero where that lies in the future.
pub open spec fn idle_for(last_used: u64, now: u64) -> int {
    if now >= last_used {
        now - last_used
    } else {
        0
    }
}

/// A swarm is idle when it was last used longer ago than the timeout.
pub open spec fn is_idle(last_used: u64, now: u64, timeout: u64) -> bool {
    idle_for(last_used, now) > timeout
}

/// How long a swarm may stay unused before it is shut down: ten minutes.
pub const IDLE_TIMEOUT_MS: u64 = 600000;

impl<H> SwarmTable<H> {
    /// The running swarms, by TLD.
    pub closed spec fn slots(self) -> Map<Seq<char>, SwarmSlot<H>> {
        self.slots.map()
    }

    /// An empty table.
    pub fn new() -> (t: SwarmTable<H>)
        ensures
            t.slots() == Map::<Seq<char>, SwarmSlot<H>>::empty(),
    {
        SwarmTable { slots: KeyedList::new() }
    }

    /// Marks the swarm of a TLD as used now, if one is running; returns whether
    /// one is. Nothing else changes.
    pub fn touch(&mut self, tld: &str, now: u64) -> (found: bool)
        ensures
            found == old(self).slots().contains_key(tld@),
            found ==> final(self).slots() == old(self).slots().insert(
                tld@,
                SwarmSlot { handle: old(self).slots()[tld@].handle, last_used: now },
            ),
            !found ==> final(self).slots() == old(self).slots(),
    {
        match self.slots.remove(tld) {
            Some(slot) => {
                let SwarmSlot { handle, last_used: _ } = slot;
                let key = String::from_str(tld);
                self.slots.insert(key, SwarmSlot { handle, last_used: now });
                proof {
                    assert(final(self).slots() =~= old(self).slots().insert(
                        tld@,
                        SwarmSlot { handle: old(self).slots()[tld@].handle, last_used: now },
                    ));
                }
                true
            },
            None => {
                proof {
                    assert(old(self).slots().remove(tld@) =~= old(self).slots());
                }
                false
            },
        }
    }

    /// The handle of the swarm of a TLD, if one is running.
    pub fn handle(&self, tld: &str) -> (r: Option<&H>)
        ensures
            r is Some == self.slots().contains_key(tld@),
            r matches Some(h) ==> *h == self.slots()[tld@].handle,
    {
        match self.slots.get(tld) {
            Some(slot) => Some(&slot.handle),
            None => None,
        }
    }

    /// Records a newly started swarm for a TLD, used now.
    pub fn insert(&mut self, tld: String, handle: H, now: u64)
        ensures
            final(self).slots() == old(self).slots().insert(
                tld@,
                SwarmSlot { handle, last_used: now },
            ),
    {
        self.slots.insert(tld, SwarmSlot { handle, last_used: now });
    }

    /// Shuts down the swarms that have been idle longer than the timeout:
    /// exactly those leave the table, and their TLDs are returned.
    pub fn collect_idle(&mut self, now: u64, timeout: u64) -> (removed: Vec<String>)
        ensures
            forall|k: Seq<char>|
                #[trigger] final(self).slots().contains_key(k) <==> old(self).slots().contains_key(
                    k,
                ) && !is_idle(old(self).slots()[k].last_used, now, timeout),
            forall|k: Seq<char>|
                #[trigger] final(self).slots().contains_key(k) ==> final(self).slots()[k]
                    == old(self).slots()[k],
            forall|k: Seq<char>|
                #[trigger] strings_view(removed@).contains(k) <==> old(self).slots().contains_key(k)
                    && is_idle(old(self).slots()[k].last_used, now, timeout),
    {
        let n = self.slots.len();
        let ghost names = self.slots.names();
        let ghost values = self.slots.values();
        let mut idle: Vec<String> = Vec::new();
        for i in 0..n
            invariant
                n == names.len(),
                n == values.len(),
                names == self.slots.names(),
                values == self.slots.values(),
                strings_view(idle@) == idle_prefix(names, values, i as int, now, timeout),
        {
            let slot = self.slots.value_at(i);
            let age: u64 = if now >= slot.last_used {
                now - slot.last_used
            } else {
                0
            };
            if age > timeout {
                let ghost before = strings_view(idle@);
                idle.push(self.slots.name_at(i).clone());
                assert(strings_view(idle@) =~= before.push(names[i as int]));
            }
        }
        proof {
            assert forall|k: Seq<char>| #[trigger]
                strings_view(idle@).contains(k) <==> old(self).slots().contains_key(k) && is_idle(
                    old(self).slots()[k].last_used,
                    now,
                    timeout,
                ) by {
                lemma_idle_prefix(names, values, n as int, now, timeout, k);
                if old(self).slots().contains_key(k) {
                    let j = choose|j: int| 0 <= j < n && #[trigger] names[j] == k;
                }
            }
        }
        let mut r: usize = 0;
        while r < idle.len()
            invariant
                r <= idle.len(),
                forall|k: Seq<char>|
                    #[trigger] self.slots.map().contains_key(k) <==> old(self).slots().contains_key(k)
                        && !strings_view(idle@.take(r as int)).contains(k),
                forall|k: Seq<char>|
                    #[trigger] self.slots.map().contains_key(k) ==> self.slots.map()[k]
                        == old(self).slots()[k],
            decreases idle.len() - r,
        {
            let _ = self.slots.remove(idle[r].as_str());
            proof {
                let p = strings_view(idle@.take(r as int));
                assert(strings_view(idle@.take(r + 1)) =~= p.push(idle@[r as int]@));
                assert forall|k: Seq<char>| #[trigger] p.push(idle@[r as int]@).contains(k) <==> (
                p.contains(k) || k == idle@[r as int]@) by {
                    lemma_push_contains(p, idle@[r as int]@, k);
                }
            }
            r = r + 1;
        }
        assert(idle@.take(idle@.len() as int) =~= idle@);
        idle
    }
}

/// The TLDs among the first `i` entries whose swarms are idle, in order.
pub open spec fn idle_prefix<H>(
    names: Seq<Seq<char>>,
    values: Seq<SwarmSlot<H>>,
    i: int,
    now: u64,
    timeout: u64,
) -> Seq<Seq<char>>
    decreases i,
{
    if i <= 0 {
        Seq::empty()
    } else {
        let p = idle_prefix(names, values, i - 1, now, timeout);
        if is_idle(values[i - 1].last_used, now, timeout) {
            p.push(names[i - 1])
        } else {
            p
        }
    }
}

/// A pushed sequence holds what it held and the pushed element.
proof fn lemma_push_contains<A>(s: Seq<A>, x: A, k: A)
    ensures
        s.push(x).contains(k) <==> (s.contains(k) || k == x),
{
    if s.contains(k) {
        let j = choose|j: int| 0 <= j < s.len() && s[j] == k;
        assert(s.push(x)[j] == k);
    }
    if k == x {
        assert(s.push(x)[s.len() as int] == k);
    }
    if s.push(x).contains(k) {
        let j = choose|j: int| 0 <= j < s.push(x).len() && s.push(x)[j] == k;
        if j < s.len() {
            assert(s[j] == k);
        }
    }
}

/// A name is among the idle TLDs of the first `i` entries exactly when one of
/// those entries has that name and is idle.
proof fn lemma_idle_prefix<H>(
    names: Seq<Seq<char>>,
    values: Seq<SwarmSlot<H>>,
    i: int,
    now: u64,
    timeout: u64,
    k: Seq<char>,
)
    requires
        0 <= i <= names.len(),
        names.len() == values.len(),
    ensures
        idle_prefix(names, values, i, now, timeout).contains(k) <==> exists|j: int|
            0 <= j < i && names[j] == k && is_idle(values[j].last_used, now, timeout),
    decreases i,
{
    if i > 0 {
        lemma_idle_prefix(names, values, i - 1, now, timeout, k);
        let p = idle_prefix(names, values, i - 1, now, timeout);
        if is_idle(values[i - 1].last_used, now, timeout) {
            lemma_push_contains(p, names[i - 1], k);
        }
        if exists|j: int| 0 <= j < i && names[j] == k && is_idle(values[j].last_used, now, timeout) {
            let j = choose|j: int|
                0 <= j < i && names[j] == k && is_idle(values[j].last_used, now, timeout);
            if j < i - 1 {
                assert(exists|j2: int|
                    0 <= j2 < i - 1 && names[j2] == k && is_idle(values[j2].last_used, now, timeout));
            }
        }
    }
}

/// The configuration a swarm is started with: the network's own, with the
/// bootstrap addresses resolved from its seed domain appended.
pub fn with_seed_peers(config: &NetworkConfig, resolved: Vec<String>) -> (r: NetworkConfig)
    ensures
        r@.bootstrap_nodes == config@.bootstrap_nodes + strings_view(resolved@),
        r@.version == config@.version,
        r@.network_id == config@.network_id,
        r@.tld == config@.tld,
        r@.local_bind_ip == config@.local_bind_ip,
        r@.api_port == config@.api_port,
        r@.repo == config@.repo,
        r@.seed_domain == config@.seed_domain,
        r@.ipfs_gateway == config@.ipfs_gateway,
{
    let mut c = config.duplicate();
    assert(strings_view(resolved@.take(0)) =~= Seq::<Seq<char>>::empty());
    assert(c@.bootstrap_nodes + Seq::<Seq<char>>::empty() =~= c@.bootstrap_nodes);
    for i in 0..resolved.len()
        invariant
            c@.bootstrap_nodes == config@.bootstrap_nodes + strings_view(resolved@.take(i as int)),
            c.bootstrap_nodes@.len() == config.bootstrap_nodes@.len() + i,
            c@.version == config@.version,
            c@.network_id == config@.network_id,
            c@.tld == config@.tld,
            c@.local_bind_ip == config@.local_bind_ip,
            c@.api_port == config@.api_port,
            c@.repo == config@.repo,
            c@.seed_domain == config@.seed_domain,
            c@.ipfs_gateway == config@.ipfs_gateway,
    {
        let ghost before = c@.bootstrap_nodes;
        c.bootstrap_nodes.push(resolved[i].clone());
        assert(c@.bootstrap_nodes =~= before.push(resolved@[i as int]@));
        assert(strings_view(resolved@.take(i + 1)) =~= strings_view(resolved@.take(i as int)).push(
            resolved@[i as int]@,
        ));
    }
    assert(resolved@.take(resolved@.len() as int) =~= resolved@);
    c
}

} // verus!
