use laser_pro_engraver::licensing::{
    activate_license, activate_license_at, calculate_checksum, hardware_fingerprint,
    is_feature_available, validate_license_key, ActivationError, LicenseInfo, LicenseState,
    LicenseTier,
};

fn valid_key() -> String {
    let chk = calculate_checksum("ABC12-DEF34-GHI56");
    format!("ABC12-DEF34-GHI56-{}8", chk)
}

#[test]
fn test_license_key_validation() {
    // Valid format: the fourth group opens with the checksum of the
    // first three groups, derived from the library's checksum function.
    assert!(validate_license_key(&valid_key()));

    // Invalid formats
    assert!(!validate_license_key("ABC12-DEF34-GHI56")); // Too short
    assert!(!validate_license_key("ABC12-DEF34-GHI56-JKL789")); // Last part too long
    assert!(!validate_license_key("ABC12_DEF34_GHI56_JKL78")); // Wrong separator
}

#[test]
fn test_hardware_id_generation() {
    let signals = vec![String::from("machine-one"), String::from("host-a")];
    let hw_id = hardware_fingerprint(&signals);
    assert!(!hw_id.is_empty());
    assert_eq!(hw_id, hardware_fingerprint(&signals)); // Should be consistent
}

#[test]
fn checksum_exact_values() {
    assert_eq!(calculate_checksum("ABC12-DEF34-GHI56"), "CA97");
    assert_eq!(calculate_checksum(""), "101F");
    assert_eq!(calculate_checksum("hello"), "BA2D");
}

#[test]
fn checksum_shape() {
    let chk = calculate_checksum("QWERT-YUIOP-ASDFG");
    assert_eq!(chk.len(), 4);
    assert!(chk.chars().all(|c| c.is_ascii_digit() || ('A'..='F').contains(&c)));
}

#[test]
fn validation_rejects_malformed_keys() {
    assert!(!validate_license_key(""));
    assert!(!validate_license_key("ABCDEFGHIJKLMNOPQRSTUVW")); // no dashes
    assert!(!validate_license_key("ABC1-2DEF34-GHI56-JKL78")); // dash misplaced
    assert!(!validate_license_key("ABC12-DEF34-GHI56-JKL7!")); // non-alphanumeric
    assert!(!validate_license_key("ABC12-DEF34-GHI56-ZZZZ9")); // checksum mismatch
    assert!(!validate_license_key("äBC12-DEF34-GHI56-JKL78")); // non-ASCII
}

#[test]
fn validation_accepts_lowercase_groups() {
    let chk = calculate_checksum("abc12-def34-ghi56");
    let key = format!("abc12-def34-ghi56-{}z", chk);
    assert!(validate_license_key(&key));
}

#[test]
fn fingerprint_exact_values() {
    let one = vec![String::from("machine-one")];
    assert_eq!(hardware_fingerprint(&one), "2a959b3c3bd36593");
    let two = vec![String::from("machine-one"), String::from("host")];
    assert_eq!(hardware_fingerprint(&two), "6ea210eda674ee7d");
    assert_eq!(hardware_fingerprint(&Vec::new()).len(), 16);
}

#[test]
fn feature_gate_by_tier() {
    assert!(is_feature_available(&LicenseTier::Premium, "anything"));
    assert!(is_feature_available(&LicenseTier::Premium, "vector_export"));
    assert!(is_feature_available(&LicenseTier::Free, "basic_load"));
    assert!(is_feature_available(&LicenseTier::Free, "basic_save"));
    assert!(is_feature_available(&LicenseTier::Free, "grayscale"));
    assert!(is_feature_available(&LicenseTier::Free, "threshold"));
    assert!(is_feature_available(&LicenseTier::Free, "basic_export"));
    assert!(!is_feature_available(&LicenseTier::Free, "vector_export"));
    assert!(!is_feature_available(&LicenseTier::Free, ""));
    assert!(!is_feature_available(&LicenseTier::Free, "basic_loadx"));
}

#[test]
fn default_record_is_free_and_unactivated() {
    let d = LicenseInfo::default();
    assert_eq!(d.key, "");
    assert!(!d.activated);
    assert_eq!(d.tier, LicenseTier::Free);
    assert_eq!(d.hardware_id, "");
    assert!(d.activation_date.is_none());
    assert!(d.expiry_date.is_none());
}

#[test]
fn activation_with_well_formed_key() {
    let key = valid_key();
    let lic = activate_license_at(&key, "fp-42", String::from("2024-05-01T00:00:00+00:00"))
        .expect("well-formed key must activate");
    assert_eq!(lic.key, key);
    assert!(lic.activated);
    assert_eq!(lic.tier, LicenseTier::Premium);
    assert_eq!(lic.hardware_id, "fp-42");
    assert_eq!(lic.activation_date.as_deref(), Some("2024-05-01T00:00:00+00:00"));
    assert!(lic.expiry_date.is_none());
}

#[test]
fn activation_rejects_malformed_key() {
    let r = activate_license_at("ABC12-DEF34-GHI56", "fp-42", String::from("now"));
    assert_eq!(r, Err(ActivationError::InvalidFormat));
    assert_eq!(
        ActivationError::InvalidFormat.message(),
        "Invalid license key format"
    );
}

#[test]
fn activation_with_clock_dates_the_record() {
    let key = valid_key();
    let lic = activate_license(&key, "fp-42").expect("well-formed key must activate");
    assert!(lic.activated);
    assert_eq!(lic.tier, LicenseTier::Premium);
    let date = lic.activation_date.expect("activation must be dated");
    assert!(!date.is_empty());
    assert!(lic.expiry_date.is_none());
}

#[test]
fn state_activation_and_feature_access() {
    let mut state = LicenseState::new(LicenseInfo::default());
    assert!(!state.check_feature_access("vector_export"));
    assert!(state.check_feature_access("basic_load"));

    let key = valid_key();
    let lic = state
        .activate_license_key(&key, "fp-1", String::from("2024-05-01T00:00:00+00:00"))
        .expect("well-formed key must activate");
    assert_eq!(lic.tier, LicenseTier::Premium);
    assert!(state.check_feature_access("vector_export"));
    assert_eq!(state.get_license_info(), lic);
}

#[test]
fn state_rejects_malformed_key_untouched() {
    let mut state = LicenseState::new(LicenseInfo::default());
    let r = state.activate_license_key("ABC12_DEF34_GHI56_JKL78", "fp-1", String::from("now"));
    assert_eq!(r, Err(ActivationError::InvalidFormat));
    assert_eq!(state.get_license_info(), LicenseInfo::default());
}

#[test]
fn deactivation_restores_default() {
    let mut state = LicenseState::new(LicenseInfo::default());
    let key = valid_key();
    state
        .activate_license_key(&key, "fp-1", String::from("2024-05-01T00:00:00+00:00"))
        .expect("well-formed key must activate");

    let persisted = state.deactivate_license();
    assert_eq!(persisted, LicenseInfo::default());
    assert_eq!(state.get_license_info(), LicenseInfo::default());
    assert!(state.check_feature_access("basic_save"));
    assert!(!state.check_feature_access("vector_export"));
}
