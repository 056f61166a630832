//! Ingress translator: the inbound fast path. Never allocates a mapping —
//! only egress traffic opens mappings — and never widens a permitted-peer
//! set; traffic that is not this NAT's concern passes through unmodified.

use vstd::prelude::*;
use vstd::pervasive::VecAdditionalExecFns;
use crate::types::{FlowKey, IngressAction, IngressPacket, Mapping};
use crate::state::{
    conn_for, external_for, external_idx, has_conn, has_external, mapping_for, same_config,
    same_tables, NatTable,
};
use crate::conn::{new_conn, touched_conn};
use crate::policy::{admit_allowed, Verdict};
use crate::mapping::lemma_wf_after_refresh;

verus! {

/// Flow key an admitted inbound packet is tracked under: the owning
/// mapping's internal tuple, paired with the packet's remote endpoint.
pub open spec fn ingress_key(s: NatTable, pkt: IngressPacket) -> FlowKey {
    FlowKey {
        internal: external_for(s.mappings@, pkt.dst_port, pkt.proto).internal,
        remote_addr: pkt.remote_addr,
        remote_port: pkt.remote_port,
    }
}

/// The inbound packet is this NAT's traffic and the filtering policy admits
/// it: a live mapping owns the destination external port, and the mapping's
/// filtering mode accepts the remote address.
pub open spec fn ingress_admitted(s: NatTable, pkt: IngressPacket) -> bool {
    has_external(s.mappings@, pkt.dst_port, pkt.proto) && admit_allowed(
        s.peers@,
        external_for(s.mappings@, pkt.dst_port, pkt.proto),
        pkt.remote_addr,
    )
}

/// The admitted packet would create a new flow while the collector holds the
/// tables quiesced.
pub open spec fn ingress_busy(s: NatTable, pkt: IngressPacket) -> bool {
    ingress_admitted(s, pkt) && s.paused && !has_conn(s.conns@, ingress_key(s, pkt))
}

/// The admitted packet is dropped: tracking its new flow would overflow the
/// mapping's reference counter (practically unreachable).
pub open spec fn ingress_drop(s: NatTable, pkt: IngressPacket) -> bool {
    ingress_admitted(s, pkt) && !ingress_busy(s, pkt) && !has_conn(s.conns@, ingress_key(s, pkt))
        && mapping_for(
        s.mappings@,
        external_for(s.mappings@, pkt.dst_port, pkt.proto).internal,
    ).ref_count == u64::MAX
}

impl NatTable {
    /// Translates one inbound packet addressed to the external address: looks
    /// the mapping up by external port, consults the filtering policy, tracks
    /// the flow and rewrites the destination to the internal endpoint.
    ///
    /// A packet with no owning mapping, or denied by the policy, passes
    /// through unmodified (it is ordinary, non-translated traffic). Refreshing
    /// an existing flow proceeds even while the collector holds the tables
    /// quiesced; creating one then reports `Busy`.
    pub fn ingress_translate(&mut self, pkt: IngressPacket, now: u64) -> (r: IngressAction)
        requires
            old(self).wf(),
        ensures
            final(self).wf(),
            same_config(*old(self), *final(self)),
            final(self).paused == old(self).paused,
            (r is PassThrough <==> !ingress_admitted(*old(self), pkt)),
            (r is Busy <==> ingress_busy(*old(self), pkt)),
            (r is Drop <==> ingress_drop(*old(self), pkt)),
            (r is Forward <==> ingress_admitted(*old(self), pkt) && !ingress_busy(*old(self), pkt)
                && !ingress_drop(*old(self), pkt)),
            !(r is Forward) ==> same_tables(*old(self), *final(self)),
            match r {
                IngressAction::Forward { dst_addr, dst_port } => {
                    let s = *old(self);
                    let m = external_for(s.mappings@, pkt.dst_port, pkt.proto);
                    let k = ingress_key(s, pkt);
                    let created = !has_conn(s.conns@, k);
                    &&& dst_addr == m.internal.addr
                    &&& dst_port == m.internal.port
                    &&& has_conn(final(self).conns@, k)
                    &&& conn_for(final(self).conns@, k) == (if created {
                        new_conn(k, true, now)
                    } else {
                        touched_conn(conn_for(s.conns@, k), true, now)
                    })
                    &&& mapping_for(final(self).mappings@, m.internal) == Mapping {
                        last_activity: now,
                        ref_count: (m.ref_count + if created {
                            1int
                        } else {
                            0int
                        }) as u64,
                        ..m
                    }
                    &&& final(self).peers@ == s.peers@
                    &&& final(self).next_generation == s.next_generation
                    &&& final(self).mappings@.len() == s.mappings@.len()
                    &&& forall|j: int|
                        0 <= j < s.mappings@.len() && j != external_idx(
                            s.mappings@,
                            pkt.dst_port,
                            pkt.proto,
                        ) ==> final(self).mappings@[j] == s.mappings@[j]
                    &&& final(self).conns@.len() == s.conns@.len() + (if created {
                        1int
                    } else {
                        0int
                    })
                    &&& forall|j: int|
                        0 <= j < s.conns@.len() && (#[trigger] s.conns@[j]).key != k
                            ==> final(self).conns@[j] == s.conns@[j]
                },
                _ => true,
            },
    {
        let i = match self.find_external(pkt.dst_port, pkt.proto) {
            None => {
                return IngressAction::PassThrough;
            },
            Some(i) => i,
        };
        proof {
            self.lemma_external_idx_is(pkt.dst_port, pkt.proto, i as int);
        }
        let m = self.mappings[i];
        match self.admit_decision(&m, pkt.remote_addr) {
            Verdict::Deny => {
                return IngressAction::PassThrough;
            },
            Verdict::Allow => {},
        }
        let k = FlowKey {
            internal: m.internal,
            remote_addr: pkt.remote_addr,
            remote_port: pkt.remote_port,
        };
        if self.paused {
            if self.find_conn(k).is_none() {
                return IngressAction::Busy;
            }
        }
        let ghost s = *old(self);
        proof {
            self.lemma_mapping_idx_is(m.internal, i as int);
        }
        match self.touch_or_create(k, true, now) {
            Ok(u) => u,
            Err(_) => {
                return IngressAction::Drop;
            },
        };
        proof {
            assert(self.mappings@[i as int].internal == m.internal);
            self.lemma_mapping_idx_is(m.internal, i as int);
        }
        let ghost mid = *self;
        let m2 = self.mappings[i];
        let m3 = Mapping {
            internal: m2.internal,
            external_port: m2.external_port,
            ref_count: m2.ref_count,
            last_activity: now,
            mode: m2.mode,
            generation: m2.generation,
        };
        self.mappings.set(i, m3);
        proof {
            lemma_wf_after_refresh(mid, *self, i as int, now);
            self.lemma_mapping_idx_is(m.internal, i as int);
        }
        IngressAction::Forward { dst_addr: m.internal.addr, dst_port: m.internal.port }
    }
}

} // verus!
