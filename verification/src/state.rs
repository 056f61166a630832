//! The shared NAT state and its well-formedness invariant, together with the
//! spec-level views of the three tables that every contract speaks of.

use vstd::prelude::*;
use crate::types::{Connection, Filtering, FlowKey, InternalTuple, Mapping, PeerEntry, Protocol};

verus! {

/// The shared NAT state: the mapping, connection and permitted-peer tables,
/// the collector's pause flag, and the startup configuration.
///
/// The fast paths and the collector cooperate on one value of this type; the
/// quiescence protocol is modelled by `paused`: while it is raised, table
/// operations that would mutate structure report `Busy` instead.
pub struct NatTable {
    pub mappings: Vec<Mapping>,
    pub conns: Vec<Connection>,
    pub peers: Vec<PeerEntry>,
    /// Raised by the garbage collector while eviction is in progress.
    pub paused: bool,
    /// Filtering mode configured at startup, snapshotted into new mappings.
    pub mode: Filtering,
    /// Connection-tracking mark applied to all tracked flows.
    pub ct_mark: u32,
    /// The egress interface's single external address.
    pub external_addr: u32,
    /// Inclusive external port range available for allocation.
    pub port_min: u16,
    pub port_max: u16,
    /// Monotonic generation counter, bumped on every successful allocation.
    pub next_generation: u64,
}

/// Some mapping is bound to internal tuple `t`.
pub open spec fn has_mapping(ms: Seq<Mapping>, t: InternalTuple) -> bool {
    exists|i: int| 0 <= i < ms.len() && (#[trigger] ms[i]).internal == t
}

/// Index of the mapping bound to `t` (unique under well-formedness).
pub open spec fn mapping_idx(ms: Seq<Mapping>, t: InternalTuple) -> int {
    choose|i: int| 0 <= i < ms.len() && (#[trigger] ms[i]).internal == t
}

/// The mapping bound to `t`.
pub open spec fn mapping_for(ms: Seq<Mapping>, t: InternalTuple) -> Mapping {
    ms[mapping_idx(ms, t)]
}

/// Some mapping owns external port `port` for protocol `proto`.
pub open spec fn has_external(ms: Seq<Mapping>, port: u16, proto: Protocol) -> bool {
    exists|i: int|
        0 <= i < ms.len() && (#[trigger] ms[i]).external_port == port && ms[i].internal.proto
            == proto
}

/// Index of the mapping owning `port` for `proto` (unique under
/// well-formedness).
pub open spec fn external_idx(ms: Seq<Mapping>, port: u16, proto: Protocol) -> int {
    choose|i: int|
        0 <= i < ms.len() && (#[trigger] ms[i]).external_port == port && ms[i].internal.proto
            == proto
}

/// The mapping owning `port` for `proto`.
pub open spec fn external_for(ms: Seq<Mapping>, port: u16, proto: Protocol) -> Mapping {
    ms[external_idx(ms, port, proto)]
}

/// External port `p` is already owned by some mapping of protocol `proto`.
pub open spec fn port_used(ms: Seq<Mapping>, proto: Protocol, p: u16) -> bool {
    exists|i: int|
        0 <= i < ms.len() && (#[trigger] ms[i]).internal.proto == proto && ms[i].external_port == p
}

/// The lowest port in `[p, max]` not owned by any mapping of `proto`, if any.
pub open spec fn first_free_port(ms: Seq<Mapping>, proto: Protocol, p: u16, max: u16) -> Option<
    u16,
>
    decreases max - p,
{
    if p > max {
        None
    } else if !port_used(ms, proto, p) {
        Some(p)
    } else if p == max {
        None
    } else {
        first_free_port(ms, proto, (p + 1) as u16, max)
    }
}

/// The external port an allocation for `t` yields on state `s`: the port of
/// the live mapping if one exists, else the lowest free port of the range.
pub open spec fn alloc_target_port(s: NatTable, t: InternalTuple) -> Option<u16> {
    if has_mapping(s.mappings@, t) {
        Some(mapping_for(s.mappings@, t).external_port)
    } else {
        first_free_port(s.mappings@, t.proto, s.port_min, s.port_max)
    }
}

/// Number of tracked connections bound to the mapping of internal tuple `t`.
pub open spec fn conn_count(cs: Seq<Connection>, t: InternalTuple) -> nat
    decreases cs.len(),
{
    if cs.len() == 0 {
        0
    } else {
        conn_count(cs.drop_last(), t) + (if cs.last().key.internal == t {
            1nat
        } else {
            0nat
        })
    }
}

/// Some connection is tracked under flow key `k`.
pub open spec fn has_conn(cs: Seq<Connection>, k: FlowKey) -> bool {
    exists|i: int| 0 <= i < cs.len() && (#[trigger] cs[i]).key == k
}

/// Index of the connection under `k` (unique under well-formedness).
pub open spec fn conn_idx(cs: Seq<Connection>, k: FlowKey) -> int {
    choose|i: int| 0 <= i < cs.len() && (#[trigger] cs[i]).key == k
}

/// The connection tracked under `k`.
pub open spec fn conn_for(cs: Seq<Connection>, k: FlowKey) -> Connection {
    cs[conn_idx(cs, k)]
}

/// Remote address `addr` is recorded as a permitted peer of the mapping for
/// internal tuple `t` (port-independent).
pub open spec fn peer_registered(ps: Seq<PeerEntry>, t: InternalTuple, addr: u32) -> bool {
    exists|i: int|
        0 <= i < ps.len() && (#[trigger] ps[i]).internal == t && ps[i].peer_addr == addr
}

/// Startup configuration, identical across every table operation.
pub open spec fn same_config(pre: NatTable, post: NatTable) -> bool {
    &&& post.mode == pre.mode
    &&& post.ct_mark == pre.ct_mark
    &&& post.external_addr == pre.external_addr
    &&& post.port_min == pre.port_min
    &&& post.port_max == pre.port_max
}

/// All three tables and the generation counter are unchanged.
pub open spec fn same_tables(pre: NatTable, post: NatTable) -> bool {
    &&& post.mappings@ == pre.mappings@
    &&& post.conns@ == pre.conns@
    &&& post.peers@ == pre.peers@
    &&& post.next_generation == pre.next_generation
}

impl NatTable {
    /// Internal tuples identify at most one mapping, external ports are
    /// unique per protocol, allocated ports lie in the configured range, and
    /// every handed-out generation is below the counter.
    pub open spec fn mappings_wf(self) -> bool {
        &&& forall|i: int, j: int|
            0 <= i < j < self.mappings@.len() ==> (#[trigger] self.mappings@[i]).internal != (
            #[trigger] self.mappings@[j]).internal
        &&& forall|i: int, j: int|
            0 <= i < j < self.mappings@.len() && (#[trigger] self.mappings@[i]).internal.proto == (
            #[trigger] self.mappings@[j]).internal.proto ==> self.mappings@[i].external_port
                != self.mappings@[j].external_port
        &&& forall|i: int|
            0 <= i < self.mappings@.len() ==> self.port_min <= (
            #[trigger] self.mappings@[i]).external_port <= self.port_max
        &&& forall|i: int|
            0 <= i < self.mappings@.len() ==> (#[trigger] self.mappings@[i]).generation
                < self.next_generation
    }

    /// Flow keys identify at most one connection, and every connection's
    /// back-reference names a live mapping (referential integrity).
    pub open spec fn conns_wf(self) -> bool {
        &&& forall|i: int, j: int|
            0 <= i < j < self.conns@.len() ==> (#[trigger] self.conns@[i]).key != (
            #[trigger] self.conns@[j]).key
        &&& forall|i: int|
            0 <= i < self.conns@.len() ==> has_mapping(
                self.mappings@,
                (#[trigger] self.conns@[i]).key.internal,
            )
    }

    /// Every mapping's reference count equals the number of connections bound
    /// to it.
    pub open spec fn refcounts_wf(self) -> bool {
        forall|i: int|
            0 <= i < self.mappings@.len() ==> (#[trigger] self.mappings@[i]).ref_count
                == conn_count(self.conns@, self.mappings@[i].internal)
    }

    /// Peer entries are not duplicated, and each names a live mapping.
    pub open spec fn peers_wf(self) -> bool {
        &&& forall|i: int, j: int|
            0 <= i < j < self.peers@.len() ==> #[trigger] self.peers@[i] != #[trigger] self.peers@[j]
        &&& forall|i: int|
            0 <= i < self.peers@.len() ==> has_mapping(
                self.mappings@,
                (#[trigger] self.peers@[i]).internal,
            )
    }

    /// Well-formedness of the whole NAT state; established by `new` and
    /// preserved by every operation.
    pub open spec fn wf(self) -> bool {
        &&& self.port_min <= self.port_max
        &&& self.mappings_wf()
        &&& self.conns_wf()
        &&& self.refcounts_wf()
        &&& self.peers_wf()
    }

    /// Fresh, empty NAT state for the given startup configuration.
    pub fn new(
        mode: Filtering,
        ct_mark: u32,
        external_addr: u32,
        port_min: u16,
        port_max: u16,
    ) -> (r: NatTable)
        requires
            port_min <= port_max,
        ensures
            r.wf(),
            r.mappings@.len() == 0,
            r.conns@.len() == 0,
            r.peers@.len() == 0,
            !r.paused,
            r.mode == mode,
            r.ct_mark == ct_mark,
            r.external_addr == external_addr,
            r.port_min == port_min,
            r.port_max == port_max,
            r.next_generation == 0,
    {
        NatTable {
            mappings: Vec::new(),
            conns: Vec::new(),
            peers: Vec::new(),
            paused: false,
            mode,
            ct_mark,
            external_addr,
            port_min,
            port_max,
            next_generation: 0,
        }
    }

    /// Raise the quiescence flag: structural table mutation is deferred until
    /// `resume`. Only the collector toggles this.
    pub fn pause(&mut self)
        ensures
            final(self).paused,
            same_tables(*old(self), *final(self)),
            same_config(*old(self), *final(self)),
            old(self).wf() ==> final(self).wf(),
    {
        self.paused = true;
    }

    /// Clear the quiescence flag; deferred fast-path mutations may proceed.
    pub fn resume(&mut self)
        ensures
            !final(self).paused,
            same_tables(*old(self), *final(self)),
            same_config(*old(self), *final(self)),
            old(self).wf() ==> final(self).wf(),
    {
        self.paused = false;
    }

    /// Under well-formedness, any index whose mapping is bound to `t` is the
    /// chosen one.
    pub proof fn lemma_mapping_idx_is(self, t: InternalTuple, i: int)
        requires
            self.mappings_wf(),
            0 <= i < self.mappings@.len(),
            self.mappings@[i].internal == t,
        ensures
            has_mapping(self.mappings@, t),
            mapping_idx(self.mappings@, t) == i,
            mapping_for(self.mappings@, t) == self.mappings@[i],
    {
        assert(has_mapping(self.mappings@, t));
        let j = mapping_idx(self.mappings@, t);
        assert(0 <= j < self.mappings@.len() && self.mappings@[j].internal == t);
    }

    /// Under well-formedness, any index owning (`port`, `proto`) is the
    /// chosen one.
    pub proof fn lemma_external_idx_is(self, port: u16, proto: Protocol, i: int)
        requires
            self.mappings_wf(),
            0 <= i < self.mappings@.len(),
            self.mappings@[i].external_port == port,
            self.mappings@[i].internal.proto == proto,
        ensures
            has_external(self.mappings@, port, proto),
            external_idx(self.mappings@, port, proto) == i,
            external_for(self.mappings@, port, proto) == self.mappings@[i],
    {
        assert(has_external(self.mappings@, port, proto));
        let j = external_idx(self.mappings@, port, proto);
        assert(0 <= j < self.mappings@.len() && self.mappings@[j].external_port == port
            && self.mappings@[j].internal.proto == proto);
    }

    /// Under well-formedness, any index whose connection carries key `k` is
    /// the chosen one.
    pub proof fn lemma_conn_idx_is(self, k: FlowKey, i: int)
        requires
            self.conns_wf(),
            0 <= i < self.conns@.len(),
            self.conns@[i].key == k,
        ensures
            has_conn(self.conns@, k),
            conn_idx(self.conns@, k) == i,
            conn_for(self.conns@, k) == self.conns@[i],
    {
        assert(has_conn(self.conns@, k));
        let j = conn_idx(self.conns@, k);
        assert(0 <= j < self.conns@.len() && self.conns@[j].key == k);
    }
}

/// A connection count never exceeds the table's length.
pub proof fn lemma_conn_count_le_len(cs: Seq<Connection>, t: InternalTuple)
    ensures
        conn_count(cs, t) <= cs.len(),
    decreases cs.len(),
{
    if cs.len() > 0 {
        lemma_conn_count_le_len(cs.drop_last(), t);
    }
}

/// A count is zero exactly when no connection is bound to `t`.
pub proof fn lemma_conn_count_zero(cs: Seq<Connection>, t: InternalTuple)
    ensures
        (conn_count(cs, t) == 0) <==> (forall|i: int|
            0 <= i < cs.len() ==> (#[trigger] cs[i]).key.internal != t),
    decreases cs.len(),
{
    if cs.len() > 0 {
        lemma_conn_count_zero(cs.drop_last(), t);
        assert(forall|i: int| 0 <= i < cs.len() - 1 ==> #[trigger] cs.drop_last()[i] == cs[i]);
        if conn_count(cs, t) == 0 {
            assert forall|i: int| 0 <= i < cs.len() implies (#[trigger] cs[i]).key.internal
                != t by {
                if i < cs.len() - 1 {
                    assert(cs.drop_last()[i] == cs[i]);
                } else {
                    assert(cs[i] == cs.last());
                }
            }
        }
    }
}

/// A connection bound to `t` witnesses a positive count.
pub proof fn lemma_conn_count_pos(cs: Seq<Connection>, i: int, t: InternalTuple)
    requires
        0 <= i < cs.len(),
        cs[i].key.internal == t,
    ensures
        conn_count(cs, t) >= 1,
{
    lemma_conn_count_zero(cs, t);
}

/// Appending a connection adjusts the count of exactly its own mapping.
pub proof fn lemma_conn_count_push(cs: Seq<Connection>, c: Connection, t: InternalTuple)
    ensures
        conn_count(cs.push(c), t) == conn_count(cs, t) + (if c.key.internal == t {
            1nat
        } else {
            0nat
        }),
{
    assert(cs.push(c).drop_last() =~= cs);
    assert(cs.push(c).last() == c);
}

/// Replacing a connection with one of the same internal tuple leaves every
/// count unchanged.
pub proof fn lemma_conn_count_update(cs: Seq<Connection>, i: int, c: Connection, t: InternalTuple)
    requires
        0 <= i < cs.len(),
        c.key.internal == cs[i].key.internal,
    ensures
        conn_count(cs.update(i, c), t) == conn_count(cs, t),
    decreases cs.len(),
{
    let cs2 = cs.update(i, c);
    if i == cs.len() - 1 {
        assert(cs2.drop_last() =~= cs.drop_last());
        assert(cs2.last() == c);
    } else {
        lemma_conn_count_update(cs.drop_last(), i, c, t);
        assert(cs2.drop_last() =~= cs.drop_last().update(i, c));
        assert(cs2.last() == cs.last());
    }
}

} // verus!
