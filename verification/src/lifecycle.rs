//! Hook lifecycle manager: governs the attachment of the two translator
//! hooks to the egress interface and the shutdown ordering.
//!
//! The embedder performs the actual (environment-specific) hook operations
//! and reports each outcome; this state machine decides what state results
//! and which rollback or teardown steps follow.

use vstd::prelude::*;
use crate::types::NatError;

verus! {

/// Lifecycle states; `Detached` is terminal.
#[derive(Clone, Copy, PartialEq, Eq, Structural, Debug)]
pub enum HookState {
    Unattached,
    Attached,
    Detached,
}

/// One teardown action the embedder performs on the interface.
#[derive(Clone, Copy, PartialEq, Eq, Structural, Debug)]
pub enum HookStep {
    DetachEgress,
    DetachIngress,
    DestroyEgress,
    DestroyIngress,
}

/// Tracks which translator hooks are active on the interface.
pub struct HookLifecycle {
    pub state: HookState,
    pub ingress_active: bool,
    pub egress_active: bool,
}

impl HookLifecycle {
    /// Hooks are active exactly while attached: there is no partially-active
    /// NAT.
    pub open spec fn wf(self) -> bool {
        &&& self.ingress_active == self.state is Attached
        &&& self.egress_active == self.state is Attached
    }

    /// A fresh manager with nothing attached.
    pub fn new() -> (r: HookLifecycle)
        ensures
            r.wf(),
            r.state is Unattached,
    {
        HookLifecycle { state: HookState::Unattached, ingress_active: false, egress_active: false }
    }

    /// Attach is all-or-nothing: given the outcomes of creating and
    /// activating the ingress and then the egress translator, either both
    /// succeeded and the manager is `Attached`, or whichever hook had come up
    /// is rolled back and the manager reports failure from `Unattached` —
    /// never a partially-active NAT.
    pub fn attach(&mut self, ingress_ok: bool, egress_ok: bool) -> (r: Result<(), NatError>)
        requires
            old(self).wf(),
            old(self).state is Unattached,
        ensures
            final(self).wf(),
            (r is Ok <==> ingress_ok && egress_ok),
            r is Ok ==> final(self).state is Attached && final(self).ingress_active
                && final(self).egress_active,
            r is Err ==> final(self).state is Unattached && !final(self).ingress_active
                && !final(self).egress_active && r == Err::<(), NatError>(
                NatError::HookAttachFailure,
            ),
    {
        if ingress_ok && egress_ok {
            self.ingress_active = true;
            self.egress_active = true;
            self.state = HookState::Attached;
            Ok(())
        } else {
            // Whichever hook activated is rolled back before failure is
            // reported.
            self.ingress_active = false;
            self.egress_active = false;
            self.state = HookState::Unattached;
            Err(NatError::HookAttachFailure)
        }
    }

    /// The teardown order on shutdown: egress is deactivated before ingress
    /// (so no new mapping is opened for a flow whose return path is about to
    /// be cut), then both hooks are destroyed.
    pub fn detach_plan(&self) -> (steps: Vec<HookStep>)
        requires
            self.state is Attached,
        ensures
            steps@ == seq![
                HookStep::DetachEgress,
                HookStep::DetachIngress,
                HookStep::DestroyEgress,
                HookStep::DestroyIngress,
            ],
    {
        let mut v: Vec<HookStep> = Vec::new();
        v.push(HookStep::DetachEgress);
        v.push(HookStep::DetachIngress);
        v.push(HookStep::DestroyEgress);
        v.push(HookStep::DestroyIngress);
        proof {
            assert(v@ =~= seq![
                HookStep::DetachEgress,
                HookStep::DetachIngress,
                HookStep::DestroyEgress,
                HookStep::DestroyIngress,
            ]);
        }
        v
    }

    /// Enters the terminal `Detached` state given each teardown step's
    /// outcome. Teardown is best-effort: a failed step is reported but the
    /// remaining steps still ran, so both hooks are released regardless.
    pub fn detach(&mut self, egress_ok: bool, ingress_ok: bool) -> (r: Result<(), NatError>)
        requires
            old(self).wf(),
            old(self).state is Attached,
        ensures
            final(self).wf(),
            final(self).state is Detached,
            !final(self).ingress_active,
            !final(self).egress_active,
            (r is Ok <==> egress_ok && ingress_ok),
            r is Err ==> r == Err::<(), NatError>(NatError::HookDetachFailure),
    {
        self.egress_active = false;
        self.ingress_active = false;
        self.state = HookState::Detached;
        if egress_ok && ingress_ok {
            Ok(())
        } else {
            Err(NatError::HookDetachFailure)
        }
    }
}

} // verus!
