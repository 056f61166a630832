//! The library's cross-cutting guarantees, each stated and proved over the
//! same spec functions the operations' contracts use.

use vstd::prelude::*;
use crate::types::{Connection, InternalTuple, IngressPacket, MAPPING_GRACE};
use crate::state::{
    alloc_target_port, conn_count, has_external, has_mapping, external_for, mapping_for,
    peer_registered, NatTable,
};
use crate::collector::{conn_expired, conn_keep, mapping_expired, mapping_keep};
use crate::ingress::ingress_admitted;
use crate::seqs::lemma_filter_map_keeps;

verus! {

/// Idempotent allocation: while a mapping for `t` is live, allocation
/// returns exactly its external port. Together with `allocate_or_get`'s
/// contract (a success leaves a live mapping with the returned port), two
/// calls without an intervening eviction return the same port.
pub proof fn lemma_allocation_idempotent(s: NatTable, t: InternalTuple)
    requires
        s.wf(),
        has_mapping(s.mappings@, t),
    ensures
        alloc_target_port(s, t) == Some(mapping_for(s.mappings@, t).external_port),
{
}

/// Reference-count soundness: in every well-formed state a mapping's count
/// equals the number of tracked connections bound to it — in particular it
/// is never negative.
pub proof fn lemma_refcount_consistent(s: NatTable, i: int)
    requires
        s.wf(),
        0 <= i < s.mappings@.len(),
    ensures
        s.mappings@[i].ref_count == conn_count(s.conns@, s.mappings@[i].internal),
        s.mappings@[i].ref_count >= 0,
{
}

/// Eviction discipline: a sweep at `now` evicts a mapping only when its
/// released reference count is zero and the idle grace period has elapsed.
pub proof fn lemma_eviction_only_when_idle(s: NatTable, now: u64, i: int)
    requires
        s.wf(),
        0 <= i < s.mappings@.len(),
        !has_mapping(
            s.mappings@.filter_map(mapping_keep(s.conns@.filter_map(conn_keep(now)), now)),
            s.mappings@[i].internal,
        ),
    ensures
        conn_count(s.conns@.filter_map(conn_keep(now)), s.mappings@[i].internal) == 0,
        now > s.mappings@[i].last_activity,
        now - s.mappings@[i].last_activity > MAPPING_GRACE,
{
    let cs = s.conns@.filter_map(conn_keep(now));
    let fm = mapping_keep(cs, now);
    let ms = s.mappings@.filter_map(fm);
    lemma_filter_map_keeps(s.mappings@, fm);
    if !mapping_expired(s.mappings@[i], cs, now) {
        assert(fm(s.mappings@[i]) is Some);
        assert(ms.contains(fm(s.mappings@[i]).unwrap()));
        let v = choose|v: int| 0 <= v < ms.len() && ms[v] == fm(s.mappings@[i]).unwrap();
        assert(ms[v].internal == s.mappings@[i].internal);
        assert(has_mapping(ms, s.mappings@[i].internal));
    }
}

/// Endpoint-Independent Filtering (full cone): an inbound packet to a live
/// mapping's external port is admitted whatever its remote endpoint.
pub proof fn lemma_endpoint_independent_admits_any(s: NatTable, pkt: IngressPacket)
    requires
        s.wf(),
        has_external(s.mappings@, pkt.dst_port, pkt.proto),
        external_for(s.mappings@, pkt.dst_port, pkt.proto).mode is EndpointIndependent,
    ensures
        ingress_admitted(s, pkt),
{
}

/// Address-Dependent Filtering (address-restricted cone): an inbound packet
/// to a live mapping is admitted exactly when its remote address was
/// previously contacted through that mapping; an unknown remote is not.
pub proof fn lemma_address_dependent_filtering(s: NatTable, pkt: IngressPacket)
    requires
        s.wf(),
        has_external(s.mappings@, pkt.dst_port, pkt.proto),
        external_for(s.mappings@, pkt.dst_port, pkt.proto).mode is AddressDependent,
    ensures
        ingress_admitted(s, pkt) <==> peer_registered(
            s.peers@,
            external_for(s.mappings@, pkt.dst_port, pkt.proto).internal,
            pkt.remote_addr,
        ),
{
}

/// The filtering decision depends only on the remote address, never on the
/// remote port: a reply from a known remote address is admitted from any of
/// its ports.
pub proof fn lemma_filtering_is_port_independent(
    s: NatTable,
    pkt1: IngressPacket,
    pkt2: IngressPacket,
)
    requires
        pkt1.remote_addr == pkt2.remote_addr,
        pkt1.dst_port == pkt2.dst_port,
        pkt1.proto == pkt2.proto,
    ensures
        ingress_admitted(s, pkt1) <==> ingress_admitted(s, pkt2),
{
}

/// Port uniqueness: no external port is owned by two live mappings of one
/// protocol, in any well-formed state — so under any interleaving of the
/// operations, all of which preserve well-formedness.
pub proof fn lemma_external_port_unique(s: NatTable, i: int, j: int)
    requires
        s.wf(),
        0 <= i < s.mappings@.len(),
        0 <= j < s.mappings@.len(),
        i != j,
        s.mappings@[i].internal.proto == s.mappings@[j].internal.proto,
    ensures
        s.mappings@[i].external_port != s.mappings@[j].external_port,
{
}

/// A sweep retains exactly the flows that are neither idle beyond their
/// timeout class nor marked for teardown.
pub proof fn lemma_sweep_keeps_live_flows(cs: Seq<Connection>, now: u64, c: Connection)
    ensures
        cs.filter_map(conn_keep(now)).contains(c) <==> cs.contains(c) && !conn_expired(c, now),
{
    let f = conn_keep(now);
    let out = cs.filter_map(f);
    lemma_filter_map_keeps(cs, f);
    if out.contains(c) {
        cs.lemma_filter_map_contains(f, c);
        let t = choose|t: Connection| #[trigger] cs.contains(t) && f(t) == Some(c);
        assert(t == c);
    }
    if cs.contains(c) && !conn_expired(c, now) {
        let j = choose|j: int| 0 <= j < cs.len() && cs[j] == c;
        assert(f(cs[j]) is Some);
    }
}

/// Referential integrity: in every well-formed state — and every operation
/// of this library takes a well-formed state to a well-formed state — each
/// tracked flow names a live mapping; a sweep never observes a connection
/// whose mapping was already evicted.
pub proof fn lemma_referential_integrity(s: NatTable, i: int)
    requires
        s.wf(),
        0 <= i < s.conns@.len(),
    ensures
        has_mapping(s.mappings@, s.conns@[i].key.internal),
{
}

} // verus!
