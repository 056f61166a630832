//! Filtering policy: the pure decision consulted by the ingress translator,
//! and the permitted-peer registration that only the egress path performs.

use vstd::prelude::*;
use crate::types::{Filtering, InternalTuple, Mapping, NatError, PeerEntry};
use crate::state::{has_mapping, peer_registered, same_config, NatTable};

verus! {

/// Decision of the filtering policy for one inbound packet.
#[derive(Clone, Copy, PartialEq, Eq, Structural, Debug)]
pub enum Verdict {
    Allow,
    Deny,
}

/// Whether the policy admits an inbound packet from `remote_addr` to the
/// mapping `m`: always under Endpoint-Independent Filtering, and only from a
/// previously contacted remote address (on any remote port) under
/// Address-Dependent Filtering.
pub open spec fn admit_allowed(ps: Seq<PeerEntry>, m: Mapping, remote_addr: u32) -> bool {
    m.mode is EndpointIndependent || peer_registered(ps, m.internal, remote_addr)
}

impl NatTable {
    /// Index of the permitted-peer entry `(t, addr)`, if recorded.
    pub(crate) fn find_peer(&self, t: InternalTuple, addr: u32) -> (r: Option<usize>)
        ensures
            match r {
                Some(i) => i < self.peers@.len() && self.peers@[i as int].internal == t
                    && self.peers@[i as int].peer_addr == addr,
                None => !peer_registered(self.peers@, t, addr),
            },
    {
        let mut i: usize = 0;
        while i < self.peers.len()
            invariant
                i <= self.peers@.len(),
                forall|j: int|
                    0 <= j < i ==> !((#[trigger] self.peers@[j]).internal == t
                        && self.peers@[j].peer_addr == addr),
            decreases self.peers@.len() - i,
        {
            if self.peers[i].internal == t && self.peers[i].peer_addr == addr {
                return Some(i);
            }
            i = i + 1;
        }
        None
    }

    /// Pure filtering decision for an inbound packet to mapping `m`, under
    /// the filtering mode snapshot the mapping was created with. Reads only.
    pub fn admit_decision(&self, m: &Mapping, remote_addr: u32) -> (r: Verdict)
        ensures
            (r is Allow <==> admit_allowed(self.peers@, *m, remote_addr)),
    {
        match m.mode {
            Filtering::EndpointIndependent => Verdict::Allow,
            Filtering::AddressDependent => {
                match self.find_peer(m.internal, remote_addr) {
                    Some(_) => Verdict::Allow,
                    None => Verdict::Deny,
                }
            },
        }
    }

    /// Records `addr` as a permitted peer of the mapping for `t`. Re-adding
    /// an existing peer is a no-op; only the egress path calls this, so only
    /// outbound traffic widens what Address-Dependent Filtering admits.
    pub fn register_peer(&mut self, t: InternalTuple, addr: u32) -> (r: Result<(), NatError>)
        requires
            old(self).wf(),
        ensures
            final(self).wf(),
            same_config(*old(self), *final(self)),
            final(self).paused == old(self).paused,
            final(self).mappings@ == old(self).mappings@,
            final(self).conns@ == old(self).conns@,
            final(self).next_generation == old(self).next_generation,
            (r is Ok <==> peer_registered(old(self).peers@, t, addr) || (has_mapping(
                old(self).mappings@,
                t,
            ) && !old(self).paused)),
            r is Ok ==> peer_registered(final(self).peers@, t, addr),
            peer_registered(old(self).peers@, t, addr) ==> final(self).peers@ == old(self).peers@
                && r is Ok,
            r is Ok && !peer_registered(old(self).peers@, t, addr) ==> final(self).peers@ == old(
                self,
            ).peers@.push(PeerEntry { internal: t, peer_addr: addr }),
            r is Err ==> final(self).peers@ == old(self).peers@,
            match r {
                Ok(_) => true,
                Err(e) => {
                    &&& (e is StaleReference <==> !peer_registered(old(self).peers@, t, addr)
                        && !has_mapping(old(self).mappings@, t))
                    &&& (e is Busy <==> !peer_registered(old(self).peers@, t, addr) && has_mapping(
                        old(self).mappings@,
                        t,
                    ) && old(self).paused)
                },
            },
    {
        match self.find_peer(t, addr) {
            Some(i) => {
                proof {
                    assert(peer_registered(self.peers@, t, addr));
                }
                Ok(())
            },
            None => {
                match self.find_mapping(t) {
                    None => Err(NatError::StaleReference),
                    Some(j) => {
                        if self.paused {
                            return Err(NatError::Busy);
                        }
                        proof {
                            self.lemma_mapping_idx_is(t, j as int);
                        }
                        let pe = PeerEntry { internal: t, peer_addr: addr };
                        self.peers.push(pe);
                        proof {
                            let pre = *old(self);
                            assert forall|a: int, b: int|
                                0 <= a < b < self.peers@.len() implies #[trigger] self.peers@[a]
                                != #[trigger] self.peers@[b] by {
                                if b < pre.peers@.len() {
                                    assert(self.peers@[a] == pre.peers@[a] && self.peers@[b]
                                        == pre.peers@[b]);
                                } else {
                                    assert(self.peers@[b] == pe);
                                    assert(self.peers@[a] == pre.peers@[a]);
                                    if pre.peers@[a] == pe {
                                        assert(peer_registered(pre.peers@, t, addr));
                                    }
                                }
                            }
                            assert(self.peers@[self.peers@.len() - 1] == pe);
                            assert(peer_registered(self.peers@, t, addr));
                        }
                        Ok(())
                    },
                }
            },
        }
    }
}

} // verus!
