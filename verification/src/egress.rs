//! Egress translator: the outbound fast path. The only path that creates new
//! mappings and the only path that widens a mapping's permitted-peer set.

use vstd::prelude::*;
use crate::types::{EgressAction, EgressPacket, FlowKey, InternalTuple, Mapping};
use crate::state::{
    alloc_target_port, conn_for, first_free_port, has_conn, has_mapping, mapping_for, mapping_idx,
    peer_registered, same_config, same_tables, NatTable,
};
use crate::conn::{new_conn, touched_conn};

verus! {

/// Internal tuple of an outbound packet's source endpoint.
pub open spec fn egress_tuple(pkt: EgressPacket) -> InternalTuple {
    InternalTuple { addr: pkt.src_addr, port: pkt.src_port, proto: pkt.proto }
}

/// Flow key of an outbound packet.
pub open spec fn egress_key(pkt: EgressPacket) -> FlowKey {
    FlowKey { internal: egress_tuple(pkt), remote_addr: pkt.dst_addr, remote_port: pkt.dst_port }
}

/// The outbound packet would need a structural change (a new mapping, flow or
/// peer entry) while the collector holds the tables quiesced.
pub open spec fn egress_busy(s: NatTable, pkt: EgressPacket) -> bool {
    s.paused && !(has_mapping(s.mappings@, egress_tuple(pkt)) && has_conn(
        s.conns@,
        egress_key(pkt),
    ) && peer_registered(s.peers@, egress_tuple(pkt), pkt.dst_addr))
}

/// The outbound packet is dropped fail-closed: the external port range is
/// exhausted, or a counter has reached its limit.
pub open spec fn egress_drop(s: NatTable, pkt: EgressPacket) -> bool {
    !egress_busy(s, pkt) && {
        let t = egress_tuple(pkt);
        if has_mapping(s.mappings@, t) {
            !has_conn(s.conns@, egress_key(pkt)) && mapping_for(s.mappings@, t).ref_count
                == u64::MAX
        } else {
            s.next_generation == u64::MAX || first_free_port(
                s.mappings@,
                t.proto,
                s.port_min,
                s.port_max,
            ) is None
        }
    }
}

impl NatTable {
    /// Translates one outbound packet: allocates or finds the mapping for the
    /// packet's internal source tuple, tracks the flow, records the remote
    /// address as a permitted peer (idempotently), and rewrites the source to
    /// the external endpoint.
    ///
    /// While the collector holds the tables quiesced, a packet of an already
    /// fully established flow still goes through (only timestamps move);
    /// anything needing structural change reports `Busy`. With no free
    /// external port the packet is dropped fail-closed rather than reusing a
    /// live port.
    pub fn egress_translate(&mut self, pkt: EgressPacket, now: u64) -> (r: EgressAction)
        requires
            old(self).wf(),
        ensures
            final(self).wf(),
            same_config(*old(self), *final(self)),
            final(self).paused == old(self).paused,
            (r is Busy <==> egress_busy(*old(self), pkt)),
            (r is Drop <==> egress_drop(*old(self), pkt)),
            (r is Forward <==> !egress_busy(*old(self), pkt) && !egress_drop(*old(self), pkt)),
            r is Busy ==> same_tables(*old(self), *final(self)),
            r is Drop ==> final(self).conns@ == old(self).conns@ && final(self).peers@ == old(
                self,
            ).peers@ && final(self).next_generation == old(self).next_generation && (if has_mapping(
                old(self).mappings@,
                egress_tuple(pkt),
            ) {
                final(self).mappings@ == old(self).mappings@.update(
                    mapping_idx(old(self).mappings@, egress_tuple(pkt)),
                    Mapping {
                        last_activity: now,
                        ..mapping_for(old(self).mappings@, egress_tuple(pkt))
                    },
                )
            } else {
                final(self).mappings@ == old(self).mappings@
            }),
            match r {
                EgressAction::Forward { src_addr, src_port } => {
                    let s = *old(self);
                    let t = egress_tuple(pkt);
                    let k = egress_key(pkt);
                    let created = !has_conn(s.conns@, k);
                    &&& src_addr == s.external_addr
                    &&& Some(src_port) == alloc_target_port(s, t)
                    &&& has_mapping(final(self).mappings@, t)
                    &&& mapping_for(final(self).mappings@, t) == (if has_mapping(s.mappings@, t) {
                        let m = mapping_for(s.mappings@, t);
                        Mapping {
                            last_activity: now,
                            ref_count: (m.ref_count + if created {
                                1int
                            } else {
                                0int
                            }) as u64,
                            ..m
                        }
                    } else {
                        Mapping {
                            internal: t,
                            external_port: src_port,
                            ref_count: 1,
                            last_activity: now,
                            mode: s.mode,
                            generation: s.next_generation,
                        }
                    })
                    &&& has_conn(final(self).conns@, k)
                    &&& conn_for(final(self).conns@, k) == (if created {
                        new_conn(k, false, now)
                    } else {
                        touched_conn(conn_for(s.conns@, k), false, now)
                    })
                    &&& peer_registered(final(self).peers@, t, pkt.dst_addr)
                    &&& final(self).conns@.len() == s.conns@.len() + (if created {
                        1int
                    } else {
                        0int
                    })
                    &&& forall|j: int|
                        0 <= j < s.conns@.len() && (#[trigger] s.conns@[j]).key != k
                            ==> final(self).conns@[j] == s.conns@[j]
                    &&& final(self).mappings@.len() == s.mappings@.len() + (if has_mapping(
                        s.mappings@,
                        t,
                    ) {
                        0int
                    } else {
                        1int
                    })
                    &&& forall|j: int|
                        0 <= j < s.mappings@.len() && (#[trigger] s.mappings@[j]).internal != t
                            ==> final(self).mappings@[j] == s.mappings@[j]
                    &&& final(self).peers@.len() == s.peers@.len() + (if peer_registered(
                        s.peers@,
                        t,
                        pkt.dst_addr,
                    ) {
                        0int
                    } else {
                        1int
                    })
                    &&& forall|j: int|
                        0 <= j < s.peers@.len() ==> final(self).peers@[j] == s.peers@[j]
                    &&& final(self).next_generation == s.next_generation + (if has_mapping(
                        s.mappings@,
                        t,
                    ) {
                        0int
                    } else {
                        1int
                    })
                },
                _ => true,
            },
    {
        let t = InternalTuple { addr: pkt.src_addr, port: pkt.src_port, proto: pkt.proto };
        let k = FlowKey { internal: t, remote_addr: pkt.dst_addr, remote_port: pkt.dst_port };
        if self.paused {
            let have_mapping = self.find_mapping(t).is_some();
            let have_conn = self.find_conn(k).is_some();
            let have_peer = self.find_peer(t, pkt.dst_addr).is_some();
            if !(have_mapping && have_conn && have_peer) {
                return EgressAction::Busy;
            }
        }
        let ghost s = *old(self);
        let ghost had_mapping = has_mapping(s.mappings@, t);
        let ghost i0 = mapping_idx(s.mappings@, t);
        let mr = match self.allocate_or_get(t, now) {
            Ok(mr) => mr,
            Err(_) => {
                return EgressAction::Drop;
            },
        };
        proof {
            if had_mapping {
                assert(self.mappings@[i0].internal == t);
                self.lemma_mapping_idx_is(t, i0);
            } else {
                self.lemma_mapping_idx_is(t, self.mappings@.len() - 1);
            }
        }
        let ghost mid1 = *self;
        match self.touch_or_create(k, false, now) {
            Ok(u) => u,
            Err(_) => {
                return EgressAction::Drop;
            },
        };
        proof {
            let mi = mapping_idx(mid1.mappings@, t);
            if has_conn(s.conns@, k) {
                assert(self.mappings@ == mid1.mappings@);
            } else {
                assert(self.mappings@[mi].internal == t);
            }
            self.lemma_mapping_idx_is(t, mi);
        }
        match self.register_peer(t, pkt.dst_addr) {
            Ok(u) => u,
            Err(_) => {
                return EgressAction::Drop;
            },
        };
        EgressAction::Forward { src_addr: self.external_addr, src_port: mr.external_port }
    }
}

} // verus!
