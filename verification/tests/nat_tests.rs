use full_cone_nat::state::NatTable;
use full_cone_nat::types::{
    EgressAction, EgressPacket, Filtering, FlowKey, IngressAction, IngressPacket, InternalTuple,
    NatError, Protocol, MAPPING_GRACE, SHORT_TIMEOUT,
};

const EXT_ADDR: u32 = 0xC0A80001; // 192.168.0.1
const HOST_A: u32 = 0x0A000005; // 10.0.0.5
const REMOTE_1: u32 = 0x01020304; // 1.2.3.4
const REMOTE_2: u32 = 0x05060708; // 5.6.7.8

fn table(mode: Filtering, port_min: u16, port_max: u16) -> NatTable {
    NatTable::new(mode, 0, EXT_ADDR, port_min, port_max)
}

fn udp_tuple(addr: u32, port: u16) -> InternalTuple {
    InternalTuple { addr, port, proto: Protocol::Udp }
}

fn egress_pkt(src: u32, sport: u16, dst: u32, dport: u16, proto: Protocol) -> EgressPacket {
    EgressPacket { src_addr: src, src_port: sport, dst_addr: dst, dst_port: dport, proto }
}

fn ingress_pkt(remote: u32, rport: u16, dport: u16, proto: Protocol) -> IngressPacket {
    IngressPacket { remote_addr: remote, remote_port: rport, dst_port: dport, proto }
}

#[test]
fn allocation_is_idempotent() {
    let mut t = table(Filtering::EndpointIndependent, 51000, 51010);
    let a = t.allocate_or_get(udp_tuple(HOST_A, 4000), 0).unwrap();
    let b = t.allocate_or_get(udp_tuple(HOST_A, 4000), 5).unwrap();
    assert_eq!(a.external_port, 51000);
    assert_eq!(b.external_port, 51000);
    assert_eq!(a.generation, b.generation);
    assert_eq!(t.mappings.len(), 1);
    let m = t.lookup_by_external(51000, Protocol::Udp).unwrap();
    assert_eq!(m.internal, udp_tuple(HOST_A, 4000));
    assert_eq!(t.count_conns(udp_tuple(HOST_A, 4000)), 0);
}

#[test]
fn lowest_free_port_and_exhaustion_boundary() {
    // Exactly two ports: two internal tuples succeed, the third fails.
    let mut t = table(Filtering::EndpointIndependent, 51000, 51001);
    let a = t.allocate_or_get(udp_tuple(HOST_A, 4000), 0).unwrap();
    let b = t.allocate_or_get(udp_tuple(HOST_A, 4001), 0).unwrap();
    assert_eq!(a.external_port, 51000);
    assert_eq!(b.external_port, 51001);
    assert_ne!(a.external_port, b.external_port);
    let c = t.allocate_or_get(udp_tuple(HOST_A, 4002), 0);
    assert_eq!(c, Err(NatError::PortExhaustion));
    // A different protocol has its own port space.
    let d = t
        .allocate_or_get(InternalTuple { addr: HOST_A, port: 4000, proto: Protocol::Tcp }, 0)
        .unwrap();
    assert_eq!(d.external_port, 51000);
}

#[test]
fn full_cone_admits_any_remote() {
    // 10.0.0.5:4000 sends UDP out and is mapped to external port 51000; a
    // previously-unseen remote host then reaches it through that port.
    let mut t = table(Filtering::EndpointIndependent, 51000, 51010);
    let out = t.egress_translate(egress_pkt(HOST_A, 4000, REMOTE_1, 9999, Protocol::Udp), 0);
    assert_eq!(out, EgressAction::Forward { src_addr: EXT_ADDR, src_port: 51000 });
    let back = t.ingress_translate(ingress_pkt(REMOTE_2, 7777, 51000, Protocol::Udp), 1);
    assert_eq!(back, IngressAction::Forward { dst_addr: HOST_A, dst_port: 4000 });
}

#[test]
fn address_dependent_filtering_denies_unknown_remote() {
    let mut t = table(Filtering::AddressDependent, 51000, 51010);
    let out = t.egress_translate(egress_pkt(HOST_A, 4000, REMOTE_1, 9999, Protocol::Udp), 0);
    assert_eq!(out, EgressAction::Forward { src_addr: EXT_ADDR, src_port: 51000 });
    // A remote host never contacted by 10.0.0.5 is passed through untouched.
    let stranger = t.ingress_translate(ingress_pkt(REMOTE_2, 7777, 51000, Protocol::Udp), 1);
    assert_eq!(stranger, IngressAction::PassThrough);
    // A reply from the contacted address is admitted even from another port.
    let reply = t.ingress_translate(ingress_pkt(REMOTE_1, 12345, 51000, Protocol::Udp), 1);
    assert_eq!(reply, IngressAction::Forward { dst_addr: HOST_A, dst_port: 4000 });
}

#[test]
fn ingress_never_opens_a_mapping() {
    let mut t = table(Filtering::EndpointIndependent, 51000, 51010);
    let r = t.ingress_translate(ingress_pkt(REMOTE_1, 7777, 51000, Protocol::Udp), 0);
    assert_eq!(r, IngressAction::PassThrough);
    assert_eq!(t.mappings.len(), 0);
    assert_eq!(t.conns.len(), 0);
}

#[test]
fn both_directions_refresh_liveness_and_sweep_releases() {
    let mut t = table(Filtering::EndpointIndependent, 51000, 51010);
    t.egress_translate(egress_pkt(HOST_A, 4000, REMOTE_1, 9999, Protocol::Udp), 0);
    // An inbound packet from a second remote opens a second flow.
    t.ingress_translate(ingress_pkt(REMOTE_2, 7777, 51000, Protocol::Udp), 10);
    assert_eq!(t.conns.len(), 2);
    assert_eq!(t.mappings[0].ref_count, 2);

    // At t=35 the first flow (last seen 0) is idle beyond the short timeout;
    // the second (last seen 10) is not.
    t.pause();
    t.sweep(35);
    assert_eq!(t.conns.len(), 1);
    assert_eq!(t.mappings.len(), 1);
    assert_eq!(t.mappings[0].ref_count, 1);

    // Outbound traffic on the surviving flow refreshes it.
    t.resume();
    t.egress_translate(egress_pkt(HOST_A, 4000, REMOTE_2, 7777, Protocol::Udp), 38);
    t.pause();
    t.sweep(60); // 60 - 38 < SHORT_TIMEOUT: still live
    assert_eq!(t.conns.len(), 1);

    // Once idle, the flow goes, the mapping's count drops to zero, but the
    // mapping itself survives until the grace period elapses.
    t.sweep(38 + SHORT_TIMEOUT + 1);
    assert_eq!(t.conns.len(), 0);
    assert_eq!(t.mappings.len(), 1);
    assert_eq!(t.mappings[0].ref_count, 0);
    let last = t.mappings[0].last_activity;
    t.sweep(last + MAPPING_GRACE);
    assert_eq!(t.mappings.len(), 1);
    t.sweep(last + MAPPING_GRACE + 1);
    assert_eq!(t.mappings.len(), 0);
    assert_eq!(t.peers.len(), 0);
    t.resume();
    assert!(t.lookup_by_external(51000, Protocol::Udp).is_none());
}

#[test]
fn sweep_preserves_referential_integrity() {
    let mut t = table(Filtering::AddressDependent, 51000, 51001);
    t.egress_translate(egress_pkt(HOST_A, 4000, REMOTE_1, 9999, Protocol::Udp), 0);
    t.egress_translate(egress_pkt(HOST_A, 4001, REMOTE_2, 8888, Protocol::Udp), 20);
    t.pause();
    t.sweep(40); // first flow idle, second alive
    t.resume();
    // Every surviving connection still finds its mapping.
    for c in t.conns.iter() {
        let found = t
            .mappings
            .iter()
            .any(|m| m.internal == c.key.internal);
        assert!(found);
    }
    // The first mapping is idle with no flows but within grace: not evicted.
    assert_eq!(t.mappings.len(), 2);
    assert_eq!(t.mappings[0].ref_count, 0);
    assert_eq!(t.mappings[1].ref_count, 1);
    // Its permitted peer, no longer backed by a flow, was pruned.
    assert_eq!(t.peers.len(), 1);
    assert_eq!(t.peers[0].peer_addr, REMOTE_2);
}

#[test]
fn quiescence_defers_structural_mutation() {
    let mut t = table(Filtering::EndpointIndependent, 51000, 51010);
    t.egress_translate(egress_pkt(HOST_A, 4000, REMOTE_1, 9999, Protocol::Udp), 0);
    t.pause();
    // A brand-new flow needs new table entries: deferred while paused.
    let blocked = t.egress_translate(egress_pkt(HOST_A, 5000, REMOTE_1, 9999, Protocol::Udp), 1);
    assert_eq!(blocked, EgressAction::Busy);
    assert_eq!(t.mappings.len(), 1);
    // Allocation alone is likewise deferred.
    assert_eq!(t.allocate_or_get(udp_tuple(HOST_A, 5000), 1), Err(NatError::Busy));
    // An already fully established flow still passes (timestamps only).
    let ok = t.egress_translate(egress_pkt(HOST_A, 4000, REMOTE_1, 9999, Protocol::Udp), 2);
    assert_eq!(ok, EgressAction::Forward { src_addr: EXT_ADDR, src_port: 51000 });
    // An inbound packet that would open a new flow is deferred too.
    let inbound = t.ingress_translate(ingress_pkt(REMOTE_2, 7777, 51000, Protocol::Udp), 3);
    assert_eq!(inbound, IngressAction::Busy);
    t.resume();
    let retried = t.egress_translate(egress_pkt(HOST_A, 5000, REMOTE_1, 9999, Protocol::Udp), 4);
    assert_eq!(retried, EgressAction::Forward { src_addr: EXT_ADDR, src_port: 51001 });
}

#[test]
fn stale_reference_after_eviction() {
    let mut t = table(Filtering::EndpointIndependent, 51000, 51010);
    let mr = t.allocate_or_get(udp_tuple(HOST_A, 4000), 0).unwrap();
    assert_eq!(t.use_ref(&mr), Ok(51000));
    t.pause();
    t.sweep(MAPPING_GRACE + 1); // no flows ever: evicted after grace
    t.resume();
    assert_eq!(t.use_ref(&mr), Err(NatError::StaleReference));
    // A fresh allocation reuses the port under a new generation; the old
    // handle stays stale.
    let mr2 = t.allocate_or_get(udp_tuple(HOST_A, 4000), 200).unwrap();
    assert_eq!(mr2.external_port, 51000);
    assert_ne!(mr2.generation, mr.generation);
    assert_eq!(t.use_ref(&mr), Err(NatError::StaleReference));
}

#[test]
fn teardown_marks_prompt_expiry() {
    let mut t = table(Filtering::EndpointIndependent, 51000, 51010);
    t.egress_translate(egress_pkt(HOST_A, 4000, REMOTE_1, 443, Protocol::Tcp), 0);
    let key = FlowKey {
        internal: InternalTuple { addr: HOST_A, port: 4000, proto: Protocol::Tcp },
        remote_addr: REMOTE_1,
        remote_port: 443,
    };
    assert!(t.mark_teardown(key));
    assert!(t.conns[0].teardown);
    t.pause();
    t.sweep(1); // long before any idle timeout
    t.resume();
    assert_eq!(t.conns.len(), 0);
    assert_eq!(t.mappings.len(), 1); // grace period still running
    assert!(!t.mark_teardown(key)); // flow is gone
}

#[test]
fn tcp_flow_established_by_reply_outlives_embryonic_timeout() {
    let mut t = table(Filtering::EndpointIndependent, 51000, 51010);
    t.egress_translate(egress_pkt(HOST_A, 4000, REMOTE_1, 443, Protocol::Tcp), 0);
    // The reply upgrades the flow to established (longer timeout class).
    let r = t.ingress_translate(ingress_pkt(REMOTE_1, 443, 51000, Protocol::Tcp), 10);
    assert_eq!(r, IngressAction::Forward { dst_addr: HOST_A, dst_port: 4000 });
    assert_eq!(t.conns.len(), 1);
    t.pause();
    t.sweep(100); // beyond the embryonic timeout, within the established one
    t.resume();
    assert_eq!(t.conns.len(), 1);
}

#[test]
fn readding_a_peer_is_a_no_op() {
    let mut t = table(Filtering::AddressDependent, 51000, 51010);
    t.egress_translate(egress_pkt(HOST_A, 4000, REMOTE_1, 9999, Protocol::Udp), 0);
    assert_eq!(t.peers.len(), 1);
    t.egress_translate(egress_pkt(HOST_A, 4000, REMOTE_1, 8888, Protocol::Udp), 1);
    assert_eq!(t.peers.len(), 1);
}
