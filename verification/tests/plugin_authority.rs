use dmnote_editor_engine::plugin_authority::{PluginRuntimeAuthority, MAX_SAFE_WIRE_REVISION};

#[test]
fn authority_generation_advances_and_rejects_stale_leases() {
    let mut authority = PluginRuntimeAuthority::default();
    assert_eq!(authority.admit_lease(0).unwrap_err(), "AUTHORITY_UNAVAILABLE".to_string());
    let generation = authority.reset().unwrap().generation();
    assert_eq!(generation, 1);
    assert!(authority.admit_lease(1).is_ok());
    assert_eq!(authority.admit_lease(0).unwrap_err(), "AUTHORITY_GENERATION_CHANGED".to_string());
    authority.mark_unavailable();
    assert_eq!(authority.admit_lease(1).unwrap_err(), "AUTHORITY_UNAVAILABLE".to_string());
}

#[test]
fn revalidate_rejects_after_reset_and_after_unavailable() {
    let mut authority = PluginRuntimeAuthority::default();
    authority.reset().unwrap();
    let lease = authority.admit_lease(1).unwrap();
    assert!(authority.revalidate(lease).is_ok());

    authority.reset().unwrap();
    assert_eq!(authority.revalidate(lease).unwrap_err(), "AUTHORITY_GENERATION_CHANGED".to_string());

    let fresh = authority.admit_lease(2).unwrap();
    authority.mark_unavailable();
    assert_eq!(authority.revalidate(fresh).unwrap_err(), "AUTHORITY_UNAVAILABLE".to_string());
}

#[test]
fn reset_makes_the_authority_available_again_with_a_new_generation() {
    let mut authority = PluginRuntimeAuthority::default();
    let first = authority.reset().unwrap();
    authority.mark_unavailable();
    assert_eq!(authority.generation(), 1);
    let second = authority.reset().unwrap();
    assert_eq!(second.generation(), 2);
    assert!(authority.revalidate(second).is_ok());
    assert_eq!(authority.revalidate(first).unwrap_err(), "AUTHORITY_GENERATION_CHANGED".to_string());
    assert_eq!(MAX_SAFE_WIRE_REVISION, 9_007_199_254_740_991);
}
