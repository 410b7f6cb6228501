use device_faker::mode::{SpoofMode, mode_is_known};

#[test]
fn known_modes_match_exactly() {
    assert!(matches!(SpoofMode::from_mode_str("lite"), SpoofMode::Lite));
    assert!(matches!(SpoofMode::from_mode_str("full"), SpoofMode::Full));
    assert!(matches!(SpoofMode::from_mode_str("resetprop"), SpoofMode::Resetprop));
}

#[test]
fn unknown_mode_falls_back_to_lite() {
    assert!(matches!(SpoofMode::from_mode_str("bogus"), SpoofMode::Lite));
    assert!(matches!(SpoofMode::from_mode_str(""), SpoofMode::Lite));
    assert!(matches!(SpoofMode::from_mode_str("reset prop"), SpoofMode::Lite));
}

#[test]
fn mode_match_is_case_sensitive() {
    assert!(matches!(SpoofMode::from_mode_str("FULL"), SpoofMode::Lite));
    assert!(matches!(SpoofMode::from_mode_str("Lite"), SpoofMode::Lite));
    assert!(matches!(SpoofMode::from_mode_str("Resetprop"), SpoofMode::Lite));
}

#[test]
fn known_mode_predicate() {
    assert!(mode_is_known("lite"));
    assert!(mode_is_known("full"));
    assert!(mode_is_known("resetprop"));
    assert!(!mode_is_known("FULL"));
    assert!(!mode_is_known("bogus"));
}
