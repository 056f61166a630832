//! Plain data carried through the translation state machine: endpoint tuples,
//! table entries, per-packet decisions and the error taxonomy.

use vstd::prelude::*;

verus! {

/// Transport protocol of a flow. ICMP-like traffic is tracked with the same
/// short timeout class as UDP.
#[derive(Clone, Copy, PartialEq, Eq, Structural, Debug)]
pub enum Protocol {
    Tcp,
    Udp,
    Icmp,
}

/// Inbound filtering behaviour, chosen at startup and snapshotted into each
/// mapping at creation time.
#[derive(Clone, Copy, PartialEq, Eq, Structural, Debug)]
pub enum Filtering {
    /// Full cone: any remote endpoint may reach a live mapping.
    EndpointIndependent,
    /// Address-restricted cone: only remote addresses previously contacted
    /// through the mapping are admitted, on any remote port.
    AddressDependent,
}

impl Filtering {
    /// Numeric encoding handed to the packet-processing hooks' configuration
    /// data section.
    pub fn to_mode_data(&self) -> (r: u8)
        ensures
            (r == 0 <==> *self is EndpointIndependent),
            (r == 1 <==> *self is AddressDependent),
    {
        match self {
            Filtering::EndpointIndependent => 0,
            Filtering::AddressDependent => 1,
        }
    }

    /// Decodes the user-facing mode id (1 = Endpoint-Independent,
    /// 2 = Address-Dependent); every other id is invalid.
    pub fn from_mode_id(id: i32) -> (r: Option<Filtering>)
        ensures
            (id == 1 <==> r == Some(Filtering::EndpointIndependent)),
            (id == 2 <==> r == Some(Filtering::AddressDependent)),
            (id != 1 && id != 2 <==> r is None),
    {
        if id == 1 {
            Some(Filtering::EndpointIndependent)
        } else if id == 2 {
            Some(Filtering::AddressDependent)
        } else {
            None
        }
    }
}

/// Trace verbosity is capped at this level.
pub const MAX_LOG_LEVEL: u8 = 5;

/// Trace verbosity used when none is configured.
pub const DEFAULT_LOG_LEVEL: u8 = 2;

/// Effective trace verbosity for a configured (or absent) level: the given
/// level capped at `MAX_LOG_LEVEL`, or `DEFAULT_LOG_LEVEL` when absent.
pub fn effective_log_level(configured: Option<u8>) -> (r: u8)
    ensures
        match configured {
            Some(l) => r == if l <= MAX_LOG_LEVEL { l } else { MAX_LOG_LEVEL },
            None => r == DEFAULT_LOG_LEVEL,
        },
{
    match configured {
        Some(l) => if l <= MAX_LOG_LEVEL { l } else { MAX_LOG_LEVEL },
        None => DEFAULT_LOG_LEVEL,
    }
}

/// The internal side of a mapping: source endpoint of the internal host plus
/// the transport protocol.
#[derive(Clone, Copy, PartialEq, Eq, Structural, Debug)]
pub struct InternalTuple {
    pub addr: u32,
    pub port: u16,
    pub proto: Protocol,
}

/// Key of one tracked flow: the internal endpoint together with the remote
/// endpoint it talks to.
#[derive(Clone, Copy, PartialEq, Eq, Structural, Debug)]
pub struct FlowKey {
    pub internal: InternalTuple,
    pub remote_addr: u32,
    pub remote_port: u16,
}

/// One allocated external endpoint for one internal endpoint.
#[derive(Clone, Copy, PartialEq, Eq, Structural, Debug)]
pub struct Mapping {
    pub internal: InternalTuple,
    /// External port on the interface's single external address.
    pub external_port: u16,
    /// Number of live connections bound to this mapping.
    pub ref_count: u64,
    pub last_activity: u64,
    /// Filtering mode snapshot taken when the mapping was created.
    pub mode: Filtering,
    /// Allocation generation, for stale-reference detection.
    pub generation: u64,
}

/// Coarse protocol state of a TCP-like flow, derived from observed traffic.
#[derive(Clone, Copy, PartialEq, Eq, Structural, Debug)]
pub enum ConnState {
    /// Created, traffic seen in one direction only.
    Embryonic,
    /// Traffic observed in both directions.
    Established,
    /// A close/reset signal was observed; expires on a short timeout.
    Closing,
}

/// One tracked flow, referencing its owning mapping by key.
#[derive(Clone, Copy, PartialEq, Eq, Structural, Debug)]
pub struct Connection {
    pub key: FlowKey,
    pub state: ConnState,
    /// True when the first packet of the flow arrived inbound.
    pub opened_inbound: bool,
    pub created: u64,
    pub last_seen: u64,
    /// Marked for prompt expiry after a protocol-level teardown signal.
    pub teardown: bool,
}

/// One permitted remote address (port-independent) recorded for a mapping's
/// internal endpoint, in support of Address-Dependent Filtering.
#[derive(Clone, Copy, PartialEq, Eq, Structural, Debug)]
pub struct PeerEntry {
    pub internal: InternalTuple,
    pub peer_addr: u32,
}

/// Handle returned by allocation: names a mapping by key and generation so a
/// holder can detect a concurrent eviction at use time.
#[derive(Clone, Copy, PartialEq, Eq, Structural, Debug)]
pub struct MappingRef {
    pub internal: InternalTuple,
    pub external_port: u16,
    pub generation: u64,
}

/// Error taxonomy of the translation core and its lifecycle manager.
#[derive(Clone, Copy, PartialEq, Eq, Structural, Debug)]
pub enum NatError {
    /// No free external port for allocation; the packet is dropped fail-closed.
    PortExhaustion,
    /// Structural mutation attempted while the collector holds the tables
    /// quiesced; transient, the caller may retry.
    Busy,
    /// A held reference's generation no longer matches the live table entry:
    /// the entry is gone, a fresh lookup or allocation is needed.
    StaleReference,
    HookAttachFailure,
    HookDetachFailure,
    /// Unrecoverable table state (e.g. a counter space exhausted).
    Fatal,
}

/// Parsed header tuple of an outbound packet, as seen before translation.
#[derive(Clone, Copy, PartialEq, Eq, Structural, Debug)]
pub struct EgressPacket {
    pub src_addr: u32,
    pub src_port: u16,
    pub dst_addr: u32,
    pub dst_port: u16,
    pub proto: Protocol,
}

/// Parsed header tuple of an inbound packet addressed to the external
/// address; `dst_port` is the external destination port.
#[derive(Clone, Copy, PartialEq, Eq, Structural, Debug)]
pub struct IngressPacket {
    pub remote_addr: u32,
    pub remote_port: u16,
    pub dst_port: u16,
    pub proto: Protocol,
}

/// Per-packet decision of the egress translator.
#[derive(Clone, Copy, PartialEq, Eq, Structural, Debug)]
pub enum EgressAction {
    /// Rewrite the source endpoint to the given external endpoint and forward.
    Forward { src_addr: u32, src_port: u16 },
    /// Fail-closed: no translation possible (port exhaustion or counter
    /// exhaustion), the packet is dropped.
    Drop,
    /// Structural mutation deferred by the collector's quiescence; retry.
    Busy,
}

/// Per-packet decision of the ingress translator.
#[derive(Clone, Copy, PartialEq, Eq, Structural, Debug)]
pub enum IngressAction {
    /// Rewrite the destination endpoint to the internal endpoint and forward.
    Forward { dst_addr: u32, dst_port: u16 },
    /// Not this NAT's traffic, or denied by the filtering policy: leave the
    /// packet untranslated.
    PassThrough,
    /// Counter exhaustion while tracking the flow; the packet is dropped.
    Drop,
    /// New flow creation deferred by the collector's quiescence; retry.
    Busy,
}

/// Idle timeout of UDP and ICMP-like flows.
pub const SHORT_TIMEOUT: u64 = 30;

/// Idle timeout of a TCP-like flow before traffic is seen in both directions.
pub const TCP_EMBRYONIC_TIMEOUT: u64 = 60;

/// Idle timeout of an established TCP-like flow.
pub const TCP_ESTABLISHED_TIMEOUT: u64 = 300;

/// Prompt timeout of a flow marked for teardown.
pub const TCP_CLOSING_TIMEOUT: u64 = 10;

/// Grace period a mapping with no remaining connections is kept before its
/// external port may be reused.
pub const MAPPING_GRACE: u64 = 120;

/// Timeout class of a tracked flow.
pub open spec fn conn_timeout_spec(c: Connection) -> u64 {
    if c.key.internal.proto is Tcp {
        match c.state {
            ConnState::Embryonic => TCP_EMBRYONIC_TIMEOUT,
            ConnState::Established => TCP_ESTABLISHED_TIMEOUT,
            ConnState::Closing => TCP_CLOSING_TIMEOUT,
        }
    } else {
        SHORT_TIMEOUT
    }
}

/// Timeout class of a tracked flow (executable form).
pub fn conn_timeout(c: &Connection) -> (r: u64)
    ensures
        r == conn_timeout_spec(*c),
{
    if c.key.internal.proto == Protocol::Tcp {
        match c.state {
            ConnState::Embryonic => TCP_EMBRYONIC_TIMEOUT,
            ConnState::Established => TCP_ESTABLISHED_TIMEOUT,
            ConnState::Closing => TCP_CLOSING_TIMEOUT,
        }
    } else {
        SHORT_TIMEOUT
    }
}

} // verus!
