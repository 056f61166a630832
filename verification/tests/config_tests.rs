use full_cone_nat::lifecycle::{HookLifecycle, HookState, HookStep};
use full_cone_nat::types::{effective_log_level, Filtering, NatError};

#[test]
fn mode_data_encoding() {
    assert_eq!(Filtering::EndpointIndependent.to_mode_data(), 0);
    assert_eq!(Filtering::AddressDependent.to_mode_data(), 1);
}

#[test]
fn mode_id_decoding() {
    assert_eq!(Filtering::from_mode_id(1), Some(Filtering::EndpointIndependent));
    assert_eq!(Filtering::from_mode_id(2), Some(Filtering::AddressDependent));
    assert_eq!(Filtering::from_mode_id(0), None);
    assert_eq!(Filtering::from_mode_id(3), None);
    assert_eq!(Filtering::from_mode_id(-1), None);
}

#[test]
fn log_level_defaults_and_cap() {
    assert_eq!(effective_log_level(None), 2);
    assert_eq!(effective_log_level(Some(0)), 0);
    assert_eq!(effective_log_level(Some(5)), 5);
    assert_eq!(effective_log_level(Some(7)), 5);
}

#[test]
fn hook_attach_is_all_or_nothing() {
    // The second hook's activation fails: the first is rolled back and the
    // manager stays unattached.
    let mut lc = HookLifecycle::new();
    let r = lc.attach(true, false);
    assert_eq!(r, Err(NatError::HookAttachFailure));
    assert_eq!(lc.state, HookState::Unattached);
    assert!(!lc.ingress_active);
    assert!(!lc.egress_active);

    let r = lc.attach(false, true);
    assert_eq!(r, Err(NatError::HookAttachFailure));
    assert_eq!(lc.state, HookState::Unattached);

    let r = lc.attach(true, true);
    assert_eq!(r, Ok(()));
    assert_eq!(lc.state, HookState::Attached);
    assert!(lc.ingress_active && lc.egress_active);
}

#[test]
fn detach_order_and_best_effort() {
    let mut lc = HookLifecycle::new();
    lc.attach(true, true).unwrap();
    let plan = lc.detach_plan();
    assert_eq!(
        plan,
        vec![
            HookStep::DetachEgress,
            HookStep::DetachIngress,
            HookStep::DestroyEgress,
            HookStep::DestroyIngress,
        ]
    );
    // A failing teardown step is reported but both hooks are released.
    let r = lc.detach(false, true);
    assert_eq!(r, Err(NatError::HookDetachFailure));
    assert_eq!(lc.state, HookState::Detached);
    assert!(!lc.ingress_active && !lc.egress_active);

    let mut lc2 = HookLifecycle::new();
    lc2.attach(true, true).unwrap();
    assert_eq!(lc2.detach(true, true), Ok(()));
    assert_eq!(lc2.state, HookState::Detached);
}
