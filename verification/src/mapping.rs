//! Mapping table operations: external-port allocation, lookup by external
//! endpoint, and the optimistic stale-reference check.
//!
//! Eviction is the garbage collector's exclusive responsibility (see the
//! collector module): releasing a mapping never frees it here, which prevents
//! a translator from freeing an entry another translator is using.

use vstd::prelude::*;
use vstd::pervasive::VecAdditionalExecFns;
use crate::types::{InternalTuple, Mapping, MappingRef, NatError, Protocol};
use crate::state::{
    alloc_target_port, first_free_port, has_external, has_mapping, external_for, mapping_for,
    mapping_idx, port_used, same_config, NatTable, lemma_conn_count_zero,
};

verus! {

impl NatTable {
    /// Index of the mapping bound to `t`, if one is live.
    pub(crate) fn find_mapping(&self, t: InternalTuple) -> (r: Option<usize>)
        ensures
            match r {
                Some(i) => i < self.mappings@.len() && self.mappings@[i as int].internal == t,
                None => !has_mapping(self.mappings@, t),
            },
    {
        let mut i: usize = 0;
        while i < self.mappings.len()
            invariant
                i <= self.mappings@.len(),
                forall|j: int| 0 <= j < i ==> (#[trigger] self.mappings@[j]).internal != t,
            decreases self.mappings@.len() - i,
        {
            if self.mappings[i].internal == t {
                return Some(i);
            }
            i = i + 1;
        }
        None
    }

    /// Index of the mapping owning (`port`, `proto`), if any.
    pub(crate) fn find_external(&self, port: u16, proto: Protocol) -> (r: Option<usize>)
        ensures
            match r {
                Some(i) => i < self.mappings@.len() && self.mappings@[i as int].external_port
                    == port && self.mappings@[i as int].internal.proto == proto,
                None => !has_external(self.mappings@, port, proto),
            },
    {
        let mut i: usize = 0;
        while i < self.mappings.len()
            invariant
                i <= self.mappings@.len(),
                forall|j: int|
                    0 <= j < i ==> !((#[trigger] self.mappings@[j]).external_port == port
                        && self.mappings@[j].internal.proto == proto),
            decreases self.mappings@.len() - i,
        {
            if self.mappings[i].external_port == port && self.mappings[i].internal.proto == proto {
                return Some(i);
            }
            i = i + 1;
        }
        None
    }

    /// Whether external port `p` is already owned for protocol `proto`.
    fn is_port_used(&self, proto: Protocol, p: u16) -> (r: bool)
        ensures
            r == port_used(self.mappings@, proto, p),
    {
        let mut i: usize = 0;
        while i < self.mappings.len()
            invariant
                i <= self.mappings@.len(),
                forall|j: int|
                    0 <= j < i ==> !((#[trigger] self.mappings@[j]).internal.proto == proto
                        && self.mappings@[j].external_port == p),
            decreases self.mappings@.len() - i,
        {
            if self.mappings[i].internal.proto == proto && self.mappings[i].external_port == p {
                return true;
            }
            i = i + 1;
        }
        false
    }

    /// The lowest free external port of the configured range for `proto`.
    fn find_free_port(&self, proto: Protocol) -> (r: Option<u16>)
        requires
            self.port_min <= self.port_max,
        ensures
            r == first_free_port(self.mappings@, proto, self.port_min, self.port_max),
    {
        let mut p: u16 = self.port_min;
        loop
            invariant
                self.port_min <= p <= self.port_max,
                first_free_port(self.mappings@, proto, self.port_min, self.port_max)
                    == first_free_port(self.mappings@, proto, p, self.port_max),
            decreases self.port_max - p,
        {
            if !self.is_port_used(proto, p) {
                return Some(p);
            }
            if p == self.port_max {
                return None;
            }
            p = p + 1;
        }
    }

    /// Returns the live mapping for internal tuple `t`, or allocates the
    /// lowest free external port of the range and creates one.
    ///
    /// An existing mapping is returned (with its activity refreshed) even
    /// while the collector holds the tables quiesced; creating a new one is a
    /// structural mutation and reports `Busy` while paused. With no free port
    /// the packet's fate is fail-closed: `PortExhaustion`. A successful
    /// allocation bumps the generation counter; `Fatal` reports the
    /// (practically unreachable) exhaustion of that counter.
    pub fn allocate_or_get(&mut self, t: InternalTuple, now: u64) -> (r: Result<
        MappingRef,
        NatError,
    >)
        requires
            old(self).wf(),
        ensures
            final(self).wf(),
            same_config(*old(self), *final(self)),
            final(self).paused == old(self).paused,
            final(self).conns@ == old(self).conns@,
            final(self).peers@ == old(self).peers@,
            (r is Ok <==> has_mapping(old(self).mappings@, t) || (!old(self).paused && old(
                self,
            ).next_generation < u64::MAX && first_free_port(
                old(self).mappings@,
                t.proto,
                old(self).port_min,
                old(self).port_max,
            ) is Some)),
            match r {
                Ok(mr) => {
                    &&& mr.internal == t
                    &&& Some(mr.external_port) == alloc_target_port(*old(self), t)
                    &&& has_mapping(final(self).mappings@, t)
                    &&& mapping_for(final(self).mappings@, t).external_port == mr.external_port
                    &&& mapping_for(final(self).mappings@, t).generation == mr.generation
                    &&& mapping_for(final(self).mappings@, t).last_activity == now
                    &&& (has_mapping(old(self).mappings@, t) ==> {
                        let i = mapping_idx(old(self).mappings@, t);
                        let m = old(self).mappings@[i];
                        &&& final(self).mappings@ == old(self).mappings@.update(
                            i,
                            Mapping { last_activity: now, ..m },
                        )
                        &&& final(self).next_generation == old(self).next_generation
                        &&& mr.generation == m.generation
                    })
                    &&& (!has_mapping(old(self).mappings@, t) ==> {
                        &&& final(self).mappings@ == old(self).mappings@.push(
                            Mapping {
                                internal: t,
                                external_port: mr.external_port,
                                ref_count: 0,
                                last_activity: now,
                                mode: old(self).mode,
                                generation: old(self).next_generation,
                            },
                        )
                        &&& final(self).next_generation == old(self).next_generation + 1
                        &&& mr.generation == old(self).next_generation
                    })
                },
                Err(e) => {
                    &&& final(self).mappings@ == old(self).mappings@
                    &&& final(self).next_generation == old(self).next_generation
                    &&& (e is Busy <==> !has_mapping(old(self).mappings@, t) && old(self).paused)
                    &&& (e is Fatal <==> !has_mapping(old(self).mappings@, t) && !old(self).paused
                        && old(self).next_generation == u64::MAX)
                    &&& (e is PortExhaustion <==> !has_mapping(old(self).mappings@, t) && !old(
                        self,
                    ).paused && old(self).next_generation < u64::MAX && first_free_port(
                        old(self).mappings@,
                        t.proto,
                        old(self).port_min,
                        old(self).port_max,
                    ) is None)
                },
            },
    {
        match self.find_mapping(t) {
            Some(i) => {
                let m = self.mappings[i];
                proof {
                    self.lemma_mapping_idx_is(t, i as int);
                }
                let refreshed = Mapping {
                    internal: m.internal,
                    external_port: m.external_port,
                    ref_count: m.ref_count,
                    last_activity: now,
                    mode: m.mode,
                    generation: m.generation,
                };
                self.mappings.set(i, refreshed);
                proof {
                    lemma_wf_after_refresh(*old(self), *self, i as int, now);
                    self.lemma_mapping_idx_is(t, i as int);
                }
                Ok(MappingRef { internal: t, external_port: m.external_port, generation: m.generation })
            },
            None => {
                if self.paused {
                    return Err(NatError::Busy);
                }
                if self.next_generation == u64::MAX {
                    return Err(NatError::Fatal);
                }
                match self.find_free_port(t.proto) {
                    None => Err(NatError::PortExhaustion),
                    Some(p) => {
                        let g = self.next_generation;
                        let m = Mapping {
                            internal: t,
                            external_port: p,
                            ref_count: 0,
                            last_activity: now,
                            mode: self.mode,
                            generation: g,
                        };
                        proof {
                            lemma_first_free_port_props(
                                self.mappings@,
                                t.proto,
                                self.port_min,
                                self.port_max,
                            );
                            lemma_conn_count_zero(self.conns@, t);
                        }
                        self.mappings.push(m);
                        self.next_generation = g + 1;
                        proof {
                            lemma_wf_after_alloc(*old(self), *self, t, p, now);
                            self.lemma_mapping_idx_is(t, self.mappings@.len() - 1);
                        }
                        Ok(MappingRef { internal: t, external_port: p, generation: g })
                    },
                }
            },
        }
    }

    /// Lookup used by the ingress path: the mapping owning (`port`, `proto`),
    /// if any. Read-only, so it proceeds regardless of quiescence.
    pub fn lookup_by_external(&self, port: u16, proto: Protocol) -> (r: Option<Mapping>)
        requires
            self.wf(),
        ensures
            (r is Some <==> has_external(self.mappings@, port, proto)),
            r is Some ==> r.unwrap() == external_for(self.mappings@, port, proto),
    {
        let mut i: usize = 0;
        while i < self.mappings.len()
            invariant
                self.wf(),
                i <= self.mappings@.len(),
                forall|j: int|
                    0 <= j < i ==> !((#[trigger] self.mappings@[j]).external_port == port
                        && self.mappings@[j].internal.proto == proto),
            decreases self.mappings@.len() - i,
        {
            if self.mappings[i].external_port == port && self.mappings[i].internal.proto == proto {
                proof {
                    self.lemma_external_idx_is(port, proto, i as int);
                }
                return Some(self.mappings[i]);
            }
            i = i + 1;
        }
        None
    }

    /// Optimistic-concurrency check for a held mapping reference: succeeds
    /// with the current external port only while the entry is live under the
    /// same generation; otherwise the entry is gone (a concurrent eviction
    /// happened) and the holder must look up or allocate afresh.
    pub fn use_ref(&self, mr: &MappingRef) -> (r: Result<u16, NatError>)
        requires
            self.wf(),
        ensures
            (r is Ok <==> has_mapping(self.mappings@, mr.internal) && mapping_for(
                self.mappings@,
                mr.internal,
            ).generation == mr.generation),
            r is Ok ==> r.unwrap() == mapping_for(self.mappings@, mr.internal).external_port,
            r is Err ==> r == Err::<u16, NatError>(NatError::StaleReference),
    {
        match self.find_mapping(mr.internal) {
            Some(i) => {
                proof {
                    self.lemma_mapping_idx_is(mr.internal, i as int);
                }
                if self.mappings[i].generation == mr.generation {
                    Ok(self.mappings[i].external_port)
                } else {
                    Err(NatError::StaleReference)
                }
            },
            None => Err(NatError::StaleReference),
        }
    }
}

/// Refreshing a mapping's activity timestamp preserves well-formedness.
pub(crate) proof fn lemma_wf_after_refresh(pre: NatTable, post: NatTable, i: int, now: u64)
    requires
        pre.wf(),
        0 <= i < pre.mappings@.len(),
        post.mappings@ == pre.mappings@.update(
            i,
            Mapping { last_activity: now, ..pre.mappings@[i] },
        ),
        post.conns@ == pre.conns@,
        post.peers@ == pre.peers@,
        post.next_generation == pre.next_generation,
        post.port_min == pre.port_min,
        post.port_max == pre.port_max,
    ensures
        post.wf(),
{
    assert forall|a: int| 0 <= a < post.mappings@.len() implies {
        &&& (#[trigger] post.mappings@[a]).internal == pre.mappings@[a].internal
        &&& post.mappings@[a].external_port == pre.mappings@[a].external_port
        &&& post.mappings@[a].generation == pre.mappings@[a].generation
        &&& post.mappings@[a].ref_count == pre.mappings@[a].ref_count
    } by {
        if a != i {
            assert(post.mappings@[a] == pre.mappings@[a]);
        }
    }
    assert forall|a: int| 0 <= a < post.conns@.len() implies has_mapping(
        post.mappings@,
        (#[trigger] post.conns@[a]).key.internal,
    ) by {
        let w = choose|w: int|
            0 <= w < pre.mappings@.len() && (#[trigger] pre.mappings@[w]).internal
                == pre.conns@[a].key.internal;
        assert(post.mappings@[w].internal == pre.conns@[a].key.internal);
    }
    assert forall|a: int| 0 <= a < post.peers@.len() implies has_mapping(
        post.mappings@,
        (#[trigger] post.peers@[a]).internal,
    ) by {
        let w = choose|w: int|
            0 <= w < pre.mappings@.len() && (#[trigger] pre.mappings@[w]).internal
                == pre.peers@[a].internal;
        assert(post.mappings@[w].internal == pre.peers@[a].internal);
    }
}

/// Appending a fresh mapping on an unused free port preserves
/// well-formedness.
proof fn lemma_wf_after_alloc(pre: NatTable, post: NatTable, t: InternalTuple, p: u16, now: u64)
    requires
        pre.wf(),
        !has_mapping(pre.mappings@, t),
        pre.port_min <= p <= pre.port_max,
        !port_used(pre.mappings@, t.proto, p),
        pre.next_generation < u64::MAX,
        post.mappings@ == pre.mappings@.push(
            Mapping {
                internal: t,
                external_port: p,
                ref_count: 0,
                last_activity: now,
                mode: pre.mode,
                generation: pre.next_generation,
            },
        ),
        post.conns@ == pre.conns@,
        post.peers@ == pre.peers@,
        post.next_generation == pre.next_generation + 1,
        post.port_min == pre.port_min,
        post.port_max == pre.port_max,
    ensures
        post.wf(),
{
    let n = pre.mappings@.len() as int;
    assert(forall|a: int| 0 <= a < n ==> #[trigger] post.mappings@[a] == pre.mappings@[a]);
    assert(post.mappings@[n].internal == t);
    assert forall|a: int| 0 <= a < n implies (#[trigger] pre.mappings@[a]).internal != t by {
        if pre.mappings@[a].internal == t {
            assert(has_mapping(pre.mappings@, t));
        }
    }
    assert forall|a: int| 0 <= a < n implies !((#[trigger] pre.mappings@[a]).internal.proto
        == t.proto && pre.mappings@[a].external_port == p) by {
        if pre.mappings@[a].internal.proto == t.proto && pre.mappings@[a].external_port == p {
            assert(port_used(pre.mappings@, t.proto, p));
        }
    }
    assert forall|a: int| 0 <= a < post.conns@.len() implies (
    #[trigger] post.conns@[a]).key.internal != t by {
        if post.conns@[a].key.internal == t {
            let w = choose|w: int|
                0 <= w < pre.mappings@.len() && (#[trigger] pre.mappings@[w]).internal
                    == pre.conns@[a].key.internal;
            assert(has_mapping(pre.mappings@, t));
        }
    }
    lemma_conn_count_zero(post.conns@, t);
    assert forall|a: int| 0 <= a < post.conns@.len() implies has_mapping(
        post.mappings@,
        (#[trigger] post.conns@[a]).key.internal,
    ) by {
        let w = choose|w: int|
            0 <= w < pre.mappings@.len() && (#[trigger] pre.mappings@[w]).internal
                == pre.conns@[a].key.internal;
        assert(post.mappings@[w].internal == pre.conns@[a].key.internal);
    }
    assert forall|a: int| 0 <= a < post.peers@.len() implies has_mapping(
        post.mappings@,
        (#[trigger] post.peers@[a]).internal,
    ) by {
        let w = choose|w: int|
            0 <= w < pre.mappings@.len() && (#[trigger] pre.mappings@[w]).internal
                == pre.peers@[a].internal;
        assert(post.mappings@[w].internal == pre.peers@[a].internal);
    }
}

/// What `first_free_port` promises: a result is a free port of the range, and
/// absence of a result means the whole range is occupied.
pub proof fn lemma_first_free_port_props(ms: Seq<Mapping>, proto: Protocol, p: u16, max: u16)
    requires
        p <= max,
    ensures
        match first_free_port(ms, proto, p, max) {
            Some(q) => p <= q <= max && !port_used(ms, proto, q),
            None => forall|q: u16| p <= q <= max ==> port_used(ms, proto, q),
        },
    decreases max - p,
{
    if port_used(ms, proto, p) && p < max {
        lemma_first_free_port_props(ms, proto, (p + 1) as u16, max);
    }
}

} // verus!
