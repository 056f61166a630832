//! Connection table operations: per-flow tracking bound to a live mapping,
//! liveness refresh, and prompt-expiry marking on protocol-level teardown.

use vstd::prelude::*;
use vstd::pervasive::VecAdditionalExecFns;
use crate::types::{Connection, ConnState, FlowKey, Mapping, NatError};
use crate::state::{
    conn_count, conn_for, conn_idx, has_conn, has_mapping, mapping_for, mapping_idx, same_config,
    NatTable, lemma_conn_count_push, lemma_conn_count_update,
};

verus! {

/// A tracked flow after one more packet: liveness refreshed; a TCP-like flow
/// that now has seen traffic in both directions becomes established.
pub open spec fn touched_conn(c: Connection, inbound: bool, now: u64) -> Connection {
    Connection {
        last_seen: now,
        state: if c.key.internal.proto is Tcp && c.state is Embryonic && inbound
            != c.opened_inbound {
            ConnState::Established
        } else {
            c.state
        },
        ..c
    }
}

/// A freshly created flow entry: embryonic, opened in the given direction.
pub open spec fn new_conn(key: FlowKey, inbound: bool, now: u64) -> Connection {
    Connection {
        key,
        state: ConnState::Embryonic,
        opened_inbound: inbound,
        created: now,
        last_seen: now,
        teardown: false,
    }
}

/// Replacing a connection by one with the same key preserves
/// well-formedness.
proof fn lemma_wf_after_conn_update(pre: NatTable, post: NatTable, i: int, c: Connection)
    requires
        pre.wf(),
        0 <= i < pre.conns@.len(),
        c.key == pre.conns@[i].key,
        post.conns@ == pre.conns@.update(i, c),
        post.mappings@ == pre.mappings@,
        post.peers@ == pre.peers@,
        post.next_generation == pre.next_generation,
        post.port_min == pre.port_min,
        post.port_max == pre.port_max,
    ensures
        post.wf(),
{
    assert forall|a: int| 0 <= a < post.conns@.len() implies (#[trigger] post.conns@[a]).key
        == pre.conns@[a].key by {
        if a != i {
            assert(post.conns@[a] == pre.conns@[a]);
        }
    }
    assert forall|a: int| 0 <= a < post.mappings@.len() implies (
    #[trigger] post.mappings@[a]).ref_count == conn_count(
        post.conns@,
        post.mappings@[a].internal,
    ) by {
        lemma_conn_count_update(pre.conns@, i, c, post.mappings@[a].internal);
    }
}

/// Creating a flow bound to a live mapping, while bumping that mapping's
/// reference count, preserves well-formedness.
proof fn lemma_wf_after_conn_create(
    pre: NatTable,
    post: NatTable,
    key: FlowKey,
    inbound: bool,
    now: u64,
)
    requires
        pre.wf(),
        !has_conn(pre.conns@, key),
        has_mapping(pre.mappings@, key.internal),
        mapping_for(pre.mappings@, key.internal).ref_count < u64::MAX,
        post.conns@ == pre.conns@.push(new_conn(key, inbound, now)),
        post.mappings@ == pre.mappings@.update(
            mapping_idx(pre.mappings@, key.internal),
            Mapping {
                ref_count: (mapping_for(pre.mappings@, key.internal).ref_count + 1) as u64,
                ..mapping_for(pre.mappings@, key.internal)
            },
        ),
        post.peers@ == pre.peers@,
        post.next_generation == pre.next_generation,
        post.port_min == pre.port_min,
        post.port_max == pre.port_max,
    ensures
        post.wf(),
{
    let j = mapping_idx(pre.mappings@, key.internal);
    assert(0 <= j < pre.mappings@.len() && pre.mappings@[j].internal == key.internal);
    assert forall|a: int| 0 <= a < post.mappings@.len() implies {
        &&& (#[trigger] post.mappings@[a]).internal == pre.mappings@[a].internal
        &&& post.mappings@[a].external_port == pre.mappings@[a].external_port
        &&& post.mappings@[a].generation == pre.mappings@[a].generation
    } by {
        if a != j {
            assert(post.mappings@[a] == pre.mappings@[a]);
        }
    }
    assert forall|a: int| 0 <= a < pre.conns@.len() implies (#[trigger] pre.conns@[a]).key
        != key by {
        if pre.conns@[a].key == key {
            assert(has_conn(pre.conns@, key));
        }
    }
    assert forall|a: int| 0 <= a < post.conns@.len() implies has_mapping(
        post.mappings@,
        (#[trigger] post.conns@[a]).key.internal,
    ) by {
        if a < pre.conns@.len() {
            let w = choose|w: int|
                0 <= w < pre.mappings@.len() && (#[trigger] pre.mappings@[w]).internal
                    == pre.conns@[a].key.internal;
            assert(post.mappings@[w].internal == pre.conns@[a].key.internal);
        } else {
            assert(post.mappings@[j].internal == key.internal);
        }
    }
    assert forall|a: int| 0 <= a < post.mappings@.len() implies (
    #[trigger] post.mappings@[a]).ref_count == conn_count(
        post.conns@,
        post.mappings@[a].internal,
    ) by {
        lemma_conn_count_push(pre.conns@, new_conn(key, inbound, now), post.mappings@[a].internal);
        if a != j {
            assert(pre.mappings@[a].internal != pre.mappings@[j].internal);
            assert(post.mappings@[a] == pre.mappings@[a]);
        }
    }
    assert forall|a: int| 0 <= a < post.peers@.len() implies has_mapping(
        post.mappings@,
        (#[trigger] post.peers@[a]).internal,
    ) by {
        let w = choose|w: int|
            0 <= w < pre.mappings@.len() && (#[trigger] pre.mappings@[w]).internal
                == pre.peers@[a].internal;
        assert(post.mappings@[w].internal == pre.peers@[a].internal);
    }
    assert forall|a: int, b: int| 0 <= a < b < post.conns@.len() implies (
    #[trigger] post.conns@[a]).key != (#[trigger] post.conns@[b]).key by {
        if b < pre.conns@.len() {
            assert(post.conns@[a] == pre.conns@[a] && post.conns@[b] == pre.conns@[b]);
        } else {
            assert(post.conns@[a] == pre.conns@[a] && post.conns@[b].key == key);
        }
    }
}

impl NatTable {
    /// Index of the connection tracked under `k`, if any.
    pub(crate) fn find_conn(&self, k: FlowKey) -> (r: Option<usize>)
        ensures
            match r {
                Some(i) => i < self.conns@.len() && self.conns@[i as int].key == k,
                None => !has_conn(self.conns@, k),
            },
    {
        let mut i: usize = 0;
        while i < self.conns.len()
            invariant
                i <= self.conns@.len(),
                forall|j: int| 0 <= j < i ==> (#[trigger] self.conns@[j]).key != k,
            decreases self.conns@.len() - i,
        {
            if self.conns[i].key == k {
                return Some(i);
            }
            i = i + 1;
        }
        None
    }

    /// On first sight of a flow (in either direction) creates an entry bound
    /// to the live mapping of its internal tuple; on every later packet
    /// refreshes its liveness.
    ///
    /// A flow is never created without a live mapping: the caller that saw no
    /// mapping gets `StaleReference` ("entry gone") and must look up or
    /// allocate afresh — unsolicited inbound traffic never creates state.
    /// Creation is a structural mutation and reports `Busy` while the
    /// collector holds the tables quiesced; refreshing an existing flow
    /// proceeds regardless.
    pub fn touch_or_create(&mut self, key: FlowKey, inbound: bool, now: u64) -> (r: Result<
        (),
        NatError,
    >)
        requires
            old(self).wf(),
        ensures
            final(self).wf(),
            same_config(*old(self), *final(self)),
            final(self).paused == old(self).paused,
            final(self).peers@ == old(self).peers@,
            final(self).next_generation == old(self).next_generation,
            (r is Ok <==> has_conn(old(self).conns@, key) || (has_mapping(
                old(self).mappings@,
                key.internal,
            ) && !old(self).paused && mapping_for(old(self).mappings@, key.internal).ref_count
                < u64::MAX)),
            r is Ok ==> has_conn(final(self).conns@, key) && conn_for(final(self).conns@, key)
                == if has_conn(old(self).conns@, key) {
                touched_conn(conn_for(old(self).conns@, key), inbound, now)
            } else {
                new_conn(key, inbound, now)
            },
            r is Ok && has_conn(old(self).conns@, key) ==> final(self).conns@ == old(
                self,
            ).conns@.update(
                conn_idx(old(self).conns@, key),
                touched_conn(conn_for(old(self).conns@, key), inbound, now),
            ) && final(self).mappings@ == old(self).mappings@,
            r is Ok && !has_conn(old(self).conns@, key) ==> final(self).conns@ == old(
                self,
            ).conns@.push(new_conn(key, inbound, now)) && final(self).mappings@ == old(
                self,
            ).mappings@.update(
                mapping_idx(old(self).mappings@, key.internal),
                Mapping {
                    ref_count: (mapping_for(old(self).mappings@, key.internal).ref_count + 1) as u64,
                    ..mapping_for(old(self).mappings@, key.internal)
                },
            ),
            match r {
                Ok(_) => true,
                Err(e) => {
                    &&& final(self).conns@ == old(self).conns@
                    &&& final(self).mappings@ == old(self).mappings@
                    &&& (e is StaleReference <==> !has_conn(old(self).conns@, key)
                        && !has_mapping(old(self).mappings@, key.internal))
                    &&& (e is Busy <==> !has_conn(old(self).conns@, key) && has_mapping(
                        old(self).mappings@,
                        key.internal,
                    ) && old(self).paused)
                    &&& (e is Fatal <==> !has_conn(old(self).conns@, key) && has_mapping(
                        old(self).mappings@,
                        key.internal,
                    ) && !old(self).paused && mapping_for(
                        old(self).mappings@,
                        key.internal,
                    ).ref_count == u64::MAX)
                },
            },
    {
        match self.find_conn(key) {
            Some(i) => {
                proof {
                    self.lemma_conn_idx_is(key, i as int);
                }
                let c = self.conns[i];
                let established = c.key.internal.proto == crate::types::Protocol::Tcp
                    && matches!(c.state, ConnState::Embryonic) && inbound != c.opened_inbound;
                let c2 = Connection {
                    key: c.key,
                    state: if established {
                        ConnState::Established
                    } else {
                        c.state
                    },
                    opened_inbound: c.opened_inbound,
                    created: c.created,
                    last_seen: now,
                    teardown: c.teardown,
                };
                self.conns.set(i, c2);
                proof {
                    lemma_wf_after_conn_update(*old(self), *self, i as int, c2);
                    self.lemma_conn_idx_is(key, i as int);
                }
                Ok(())
            },
            None => {
                match self.find_mapping(key.internal) {
                    None => Err(NatError::StaleReference),
                    Some(j) => {
                        proof {
                            self.lemma_mapping_idx_is(key.internal, j as int);
                        }
                        if self.paused {
                            return Err(NatError::Busy);
                        }
                        let m = self.mappings[j];
                        if m.ref_count == u64::MAX {
                            return Err(NatError::Fatal);
                        }
                        let m2 = Mapping {
                            internal: m.internal,
                            external_port: m.external_port,
                            ref_count: m.ref_count + 1,
                            last_activity: m.last_activity,
                            mode: m.mode,
                            generation: m.generation,
                        };
                        self.mappings.set(j, m2);
                        let c = Connection {
                            key,
                            state: ConnState::Embryonic,
                            opened_inbound: inbound,
                            created: now,
                            last_seen: now,
                            teardown: false,
                        };
                        self.conns.push(c);
                        proof {
                            lemma_wf_after_conn_create(*old(self), *self, key, inbound, now);
                            self.lemma_conn_idx_is(key, self.conns@.len() - 1);
                        }
                        Ok(())
                    },
                }
            },
        }
    }

    /// Flags a flow for prompt (short-timeout) expiry after a protocol-level
    /// close or reset was observed, instead of waiting for the idle timeout.
    /// Returns whether the flow was tracked.
    pub fn mark_teardown(&mut self, key: FlowKey) -> (found: bool)
        requires
            old(self).wf(),
        ensures
            final(self).wf(),
            same_config(*old(self), *final(self)),
            final(self).paused == old(self).paused,
            final(self).mappings@ == old(self).mappings@,
            final(self).peers@ == old(self).peers@,
            final(self).next_generation == old(self).next_generation,
            (found <==> has_conn(old(self).conns@, key)),
            found ==> final(self).conns@ == old(self).conns@.update(
                conn_idx(old(self).conns@, key),
                Connection {
                    teardown: true,
                    state: ConnState::Closing,
                    ..conn_for(old(self).conns@, key)
                },
            ),
            !found ==> final(self).conns@ == old(self).conns@,
    {
        match self.find_conn(key) {
            None => false,
            Some(i) => {
                proof {
                    self.lemma_conn_idx_is(key, i as int);
                }
                let c = self.conns[i];
                let c2 = Connection {
                    key: c.key,
                    state: ConnState::Closing,
                    opened_inbound: c.opened_inbound,
                    created: c.created,
                    last_seen: c.last_seen,
                    teardown: true,
                };
                self.conns.set(i, c2);
                proof {
                    lemma_wf_after_conn_update(*old(self), *self, i as int, c2);
                }
                true
            },
        }
    }
}

} // verus!
