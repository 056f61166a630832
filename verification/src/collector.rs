//! Garbage collector: the slow-path sweep that reclaims expired state while
//! the fast paths are quiesced.
//!
//! One sweep (run between `pause` and `resume`) evicts connections that
//! outlived their timeout class or were marked for teardown, releases their
//! owning mappings by recomputing every reference count, evicts mappings
//! whose count reached zero once the idle grace period elapsed, and prunes
//! permitted-peer entries no retained connection still backs. Eviction
//! happens nowhere else.

use vstd::prelude::*;
use crate::types::{
    conn_timeout, conn_timeout_spec, Connection, InternalTuple, Mapping, PeerEntry, MAPPING_GRACE,
};
use crate::state::{
    conn_count, same_config, NatTable, has_mapping, lemma_conn_count_le_len, lemma_conn_count_pos,
};
use crate::seqs::{
    lemma_filter_map_all, lemma_filter_map_distinct_by, lemma_filter_map_keeps,
    lemma_filter_map_source,
};

verus! {

/// A tracked flow has outlived its timeout class at `now`, or was marked for
/// prompt teardown.
pub open spec fn conn_expired(c: Connection, now: u64) -> bool {
    c.teardown || (now > c.last_seen && now - c.last_seen > conn_timeout_spec(c))
}

/// The sweep's keep-function on connections: expired flows are dropped, the
/// rest are kept unchanged.
pub open spec fn conn_keep(now: u64) -> spec_fn(Connection) -> Option<Connection> {
    |c: Connection|
        if conn_expired(c, now) {
            None
        } else {
            Some(c)
        }
}

/// A mapping with no remaining connections (measured against the retained
/// connections `cs`) whose idle grace period has elapsed at `now`.
pub open spec fn mapping_expired(m: Mapping, cs: Seq<Connection>, now: u64) -> bool {
    conn_count(cs, m.internal) == 0 && now > m.last_activity && now - m.last_activity
        > MAPPING_GRACE
}

/// The sweep's keep-function on mappings: expired mappings are evicted, the
/// kept ones have their reference count released down to the retained
/// connection count.
pub open spec fn mapping_keep(cs: Seq<Connection>, now: u64) -> spec_fn(Mapping) -> Option<
    Mapping,
> {
    |m: Mapping|
        if mapping_expired(m, cs, now) {
            None
        } else {
            Some(Mapping { ref_count: conn_count(cs, m.internal) as u64, ..m })
        }
}

/// A peer entry still backed by a retained connection of the same internal
/// tuple to that remote address.
pub open spec fn peer_referenced(cs: Seq<Connection>, p: PeerEntry) -> bool {
    exists|i: int|
        0 <= i < cs.len() && (#[trigger] cs[i]).key.internal == p.internal
            && cs[i].key.remote_addr == p.peer_addr
}

/// The sweep's keep-function on peer entries.
pub open spec fn peer_keep(cs: Seq<Connection>) -> spec_fn(PeerEntry) -> Option<PeerEntry> {
    |p: PeerEntry|
        if peer_referenced(cs, p) {
            Some(p)
        } else {
            None
        }
}

impl NatTable {
    /// Number of tracked connections bound to the mapping of `t`.
    pub fn count_conns(&self, t: InternalTuple) -> (r: u64)
        ensures
            r == conn_count(self.conns@, t),
    {
        let mut r: u64 = 0;
        let mut i: usize = 0;
        while i < self.conns.len()
            invariant
                i <= self.conns@.len(),
                r <= i,
                r == conn_count(self.conns@.take(i as int), t),
            decreases self.conns@.len() - i,
        {
            proof {
                assert(self.conns@.take(i as int + 1).drop_last() =~= self.conns@.take(i as int));
                assert(self.conns@.take(i as int + 1).last() == self.conns@[i as int]);
            }
            if self.conns[i].key.internal == t {
                r = r + 1;
            }
            i = i + 1;
        }
        proof {
            assert(self.conns@.take(self.conns@.len() as int) =~= self.conns@);
        }
        r
    }

    /// Whether some tracked connection still backs peer entry `p`.
    fn peer_has_conn(&self, p: &PeerEntry) -> (r: bool)
        ensures
            r == peer_referenced(self.conns@, *p),
    {
        let mut i: usize = 0;
        while i < self.conns.len()
            invariant
                i <= self.conns@.len(),
                forall|j: int|
                    0 <= j < i ==> !((#[trigger] self.conns@[j]).key.internal == p.internal
                        && self.conns@[j].key.remote_addr == p.peer_addr),
            decreases self.conns@.len() - i,
        {
            if self.conns[i].key.internal == p.internal && self.conns[i].key.remote_addr
                == p.peer_addr {
                return true;
            }
            i = i + 1;
        }
        false
    }

    /// One collector sweep, run while the fast paths are quiesced: evicts
    /// expired flows, releases and evicts idle mappings, prunes unbacked
    /// peers.
    pub fn sweep(&mut self, now: u64)
        requires
            old(self).wf(),
            old(self).paused,
        ensures
            final(self).wf(),
            same_config(*old(self), *final(self)),
            final(self).paused,
            final(self).next_generation == old(self).next_generation,
            final(self).conns@ == old(self).conns@.filter_map(conn_keep(now)),
            final(self).mappings@ == old(self).mappings@.filter_map(
                mapping_keep(old(self).conns@.filter_map(conn_keep(now)), now),
            ),
            final(self).peers@ == old(self).peers@.filter_map(
                peer_keep(old(self).conns@.filter_map(conn_keep(now))),
            ),
    {
        let ghost s = *old(self);

        // Evict expired connections.
        let mut kept_c: Vec<Connection> = Vec::new();
        let mut i: usize = 0;
        while i < self.conns.len()
            invariant
                *self == s,
                i <= self.conns@.len(),
                kept_c@ == self.conns@.take(i as int).filter_map(conn_keep(now)),
            decreases self.conns@.len() - i,
        {
            let c = self.conns[i];
            let timeout = conn_timeout(&c);
            let expired = c.teardown || (now > c.last_seen && now - c.last_seen > timeout);
            proof {
                assert(expired == conn_expired(c, now));
                self.conns@.lemma_filter_map_take_succ(conn_keep(now), i as int);
            }
            if !expired {
                kept_c.push(c);
            }
            i = i + 1;
            proof {
                assert(kept_c@ =~= self.conns@.take(i as int).filter_map(conn_keep(now)));
            }
        }
        proof {
            assert(self.conns@.take(self.conns@.len() as int) =~= self.conns@);
        }
        self.conns = kept_c;
        let _retained = self.conns.len();
        let ghost cs = self.conns@;

        // Release reference counts and evict idle mappings.
        let mut kept_m: Vec<Mapping> = Vec::new();
        let mut j: usize = 0;
        while j < self.mappings.len()
            invariant
                self.conns@ == cs,
                self.mappings@ == s.mappings@,
                j <= self.mappings@.len(),
                kept_m@ == self.mappings@.take(j as int).filter_map(mapping_keep(cs, now)),
            decreases self.mappings@.len() - j,
        {
            let m = self.mappings[j];
            let rc = self.count_conns(m.internal);
            let expired = rc == 0 && now > m.last_activity && now - m.last_activity
                > MAPPING_GRACE;
            let m2 = Mapping {
                internal: m.internal,
                external_port: m.external_port,
                ref_count: rc,
                last_activity: m.last_activity,
                mode: m.mode,
                generation: m.generation,
            };
            proof {
                assert(expired == mapping_expired(m, cs, now));
                assert(!expired ==> mapping_keep(cs, now)(m) == Some(m2));
                self.mappings@.lemma_filter_map_take_succ(mapping_keep(cs, now), j as int);
            }
            if !expired {
                kept_m.push(m2);
            }
            j = j + 1;
            proof {
                assert(kept_m@ =~= self.mappings@.take(j as int).filter_map(mapping_keep(cs, now)));
            }
        }
        proof {
            assert(self.mappings@.take(self.mappings@.len() as int) =~= self.mappings@);
        }
        self.mappings = kept_m;
        let ghost ms = self.mappings@;

        // Prune peer entries no retained connection backs.
        let mut kept_p: Vec<PeerEntry> = Vec::new();
        let mut l: usize = 0;
        while l < self.peers.len()
            invariant
                self.conns@ == cs,
                self.mappings@ == ms,
                self.peers@ == s.peers@,
                l <= self.peers@.len(),
                kept_p@ == self.peers@.take(l as int).filter_map(peer_keep(cs)),
            decreases self.peers@.len() - l,
        {
            let p = self.peers[l];
            let referenced = self.peer_has_conn(&p);
            proof {
                assert(peer_keep(cs)(p) == if peer_referenced(cs, p) {
                    Some(p)
                } else {
                    None::<PeerEntry>
                });
                self.peers@.lemma_filter_map_take_succ(peer_keep(cs), l as int);
            }
            if referenced {
                kept_p.push(p);
            }
            l = l + 1;
            proof {
                assert(kept_p@ =~= self.peers@.take(l as int).filter_map(peer_keep(cs)));
            }
        }
        proof {
            assert(self.peers@.take(self.peers@.len() as int) =~= self.peers@);
        }
        self.peers = kept_p;

        proof {
            lemma_swept_state_wf(s, *self, now);
        }
    }
}

/// The state left by a sweep is well-formed: kept connections still name
/// live mappings, counts match, and all uniqueness survives.
proof fn lemma_swept_state_wf(pre: NatTable, post: NatTable, now: u64)
    requires
        pre.wf(),
        post.conns@ == pre.conns@.filter_map(conn_keep(now)),
        post.mappings@ == pre.mappings@.filter_map(
            mapping_keep(pre.conns@.filter_map(conn_keep(now)), now),
        ),
        post.peers@ == pre.peers@.filter_map(peer_keep(pre.conns@.filter_map(conn_keep(now)))),
        post.conns@.len() <= usize::MAX,
        post.port_min == pre.port_min,
        post.port_max == pre.port_max,
        post.next_generation == pre.next_generation,
    ensures
        post.wf(),
{
    let cs0 = pre.conns@;
    let ms0 = pre.mappings@;
    let cs = post.conns@;
    let ms = post.mappings@;
    let fc = conn_keep(now);
    let fm = mapping_keep(cs, now);
    let fp = peer_keep(cs);

    // Uniqueness of flow keys among retained connections.
    lemma_filter_map_distinct_by(cs0, fc, |c: Connection| c.key, |c: Connection| c.key);

    // Uniqueness of internal tuples and of (protocol, port) among kept
    // mappings; ports stay in range, generations below the counter.
    assert forall|a: Mapping| #[trigger] fm(a) is Some implies fm(a).unwrap().internal
        == a.internal by {}
    lemma_filter_map_distinct_by(ms0, fm, |m: Mapping| m.internal, |m: Mapping| m.internal);
    lemma_filter_map_distinct_by(
        ms0,
        fm,
        |m: Mapping| (m.internal.proto, m.external_port),
        |m: Mapping| (m.internal.proto, m.external_port),
    );
    lemma_filter_map_all(
        ms0,
        fm,
        |m: Mapping| pre.port_min <= m.external_port <= pre.port_max,
    );
    lemma_filter_map_all(ms0, fm, |m: Mapping| m.generation < pre.next_generation);

    // Kept mappings carry the recomputed (released) reference count.
    assert forall|a: Mapping| #[trigger] fm(a) is Some implies fm(a).unwrap().ref_count
        == conn_count(cs, fm(a).unwrap().internal) by {
        lemma_conn_count_le_len(cs, a.internal);
    }
    lemma_filter_map_all(ms0, fm, |m: Mapping| m.ref_count == conn_count(cs, m.internal));

    // Every retained connection still names a live mapping: its mapping kept
    // a positive count, so it was not evicted.
    lemma_filter_map_source(cs0, fc);
    lemma_filter_map_keeps(ms0, fm);
    assert forall|a: int| 0 <= a < cs.len() implies has_mapping(
        ms,
        (#[trigger] cs[a]).key.internal,
    ) by {
        let j0 = choose|j0: int| 0 <= j0 < cs0.len() && fc(cs0[j0]) == Some(cs[a]);
        assert(cs[a] == cs0[j0]);
        let t = cs[a].key.internal;
        let w = choose|w: int|
            0 <= w < ms0.len() && (#[trigger] ms0[w]).internal == t;
        lemma_conn_count_pos(cs, a, t);
        assert(!mapping_expired(ms0[w], cs, now));
        assert(fm(ms0[w]) is Some);
        assert(ms.contains(fm(ms0[w]).unwrap()));
        let v = choose|v: int| 0 <= v < ms.len() && ms[v] == fm(ms0[w]).unwrap();
        assert(ms[v].internal == t);
    }

    // Peer entries survive only with a backing connection, whose mapping is
    // live as just shown.
    lemma_filter_map_distinct_by(pre.peers@, fp, |p: PeerEntry| p, |p: PeerEntry| p);
    lemma_filter_map_source(pre.peers@, fp);
    assert forall|a: int| 0 <= a < post.peers@.len() implies has_mapping(
        ms,
        (#[trigger] post.peers@[a]).internal,
    ) by {
        let p = post.peers@[a];
        let j0 = choose|j0: int| 0 <= j0 < pre.peers@.len() && fp(pre.peers@[j0]) == Some(p);
        assert(peer_referenced(cs, p));
        let b = choose|b: int|
            0 <= b < cs.len() && (#[trigger] cs[b]).key.internal == p.internal
                && cs[b].key.remote_addr == p.peer_addr;
        assert(has_mapping(ms, cs[b].key.internal));
    }
}

} // verus!
