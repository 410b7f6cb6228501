use device_faker::companion::{RecordTable, restore_if_needed};
use device_faker::config::{AppConfig, Config, Template};
use device_faker::hooks::{build_field_patches, field_patch_report};
use device_faker::specialize::{ConfigOutcome, handle_app_specialize};
use device_faker::state::SpoofState;
use device_faker::strmap::{AssocVec, PropertyMap};

fn props(pairs: &[(&str, &str)]) -> PropertyMap {
    let mut m: PropertyMap = AssocVec::new();
    for (k, v) in pairs {
        m.set(k, (*v).to_string());
    }
    m
}

fn get_str<'a>(m: &'a PropertyMap, key: &str) -> Option<&'a str> {
    m.get(key).map(|s| s.as_str())
}

fn one_app_config(mode: &str, pairs: &[(&str, &str)]) -> ConfigOutcome {
    let mut cfg = Config::new(false);
    cfg.add_app(
        "com.example.app",
        AppConfig {
            mode: mode.to_string(),
            template: None,
            properties: props(pairs),
            force_denylist_unmount: None,
        },
    );
    ConfigOutcome::Loaded(cfg)
}

#[test]
fn lite_mode_patches_fields_and_unloads() {
    let mut state = SpoofState::new();
    let mut store = props(&[]);
    let mut records: RecordTable = AssocVec::new();
    let config = one_app_config("lite", &[("ro.product.model", "Pixel 9")]);

    let acts = handle_app_specialize(&mut state, &mut store, &mut records,
        "com.example.app", 0, &config);

    assert!(acts.request_unload);
    assert!(!acts.install_interception);
    assert!(!acts.companion_spoofed);
    assert_eq!(acts.field_patches.len(), 1);
    assert_eq!(acts.field_patches[0].0.as_str(), "MODEL");
    assert_eq!(acts.field_patches[0].1.as_str(), "Pixel 9");
    // no interception layer: every lookup passes through
    assert!(state.intercept_property_read("ro.product.model").is_none());
    assert!(state.should_unload_after_specialize());
    // no companion call was made
    assert!(records.is_empty());
    assert!(store.is_empty());
}

#[test]
fn full_mode_intercepts_mapped_keys_and_stays_resident() {
    let mut state = SpoofState::new();
    let mut store = props(&[]);
    let mut records: RecordTable = AssocVec::new();
    let config = one_app_config("full", &[("ro.build.fingerprint", "X")]);

    let acts = handle_app_specialize(&mut state, &mut store, &mut records,
        "com.example.app", 0, &config);

    assert!(!acts.request_unload);
    assert!(acts.install_interception);
    assert!(!acts.companion_spoofed);
    // a mapped key answers the replacement
    assert_eq!(
        state.intercept_property_read("ro.build.fingerprint").map(|s| s.as_str()),
        Some("X"),
    );
    // any other key passes through unmodified
    assert!(state.intercept_property_read("ro.serialno").is_none());
    // the module must stay resident
    assert!(!state.should_unload_after_specialize());
}

#[test]
fn resetprop_mode_spoofs_and_later_launch_restores() {
    let mut store = props(&[("ro.serialno", "ORIGINAL-7")]);
    let mut records: RecordTable = AssocVec::new();
    let config = one_app_config("resetprop", &[("ro.serialno", "FAKE123")]);

    // first launch: no record yet, spoof stores the old serial
    let mut state = SpoofState::new();
    let acts = handle_app_specialize(&mut state, &mut store, &mut records,
        "com.example.app", 0, &config);
    assert!(acts.request_unload);
    assert!(acts.companion_spoofed);
    assert!(!acts.install_interception);
    assert_eq!(get_str(&store, "ro.serialno"), Some("FAKE123"));
    assert!(records.contains_key("com.example.app@0"));
    assert!(state.should_unload_after_specialize());

    // second launch of the same identity: the restoration pass reverts
    // to the original serial before the new spoof is applied
    let mut state2 = SpoofState::new();
    handle_app_specialize(&mut state2, &mut store, &mut records,
        "com.example.app", 0, &config);
    assert_eq!(get_str(&store, "ro.serialno"), Some("FAKE123"));
    // the fresh record captured the true original again, not the fake:
    // one restore returns the store to its pre-spoof contents
    restore_if_needed(&mut store, &mut records, "com.example.app@0");
    assert_eq!(get_str(&store, "ro.serialno"), Some("ORIGINAL-7"));
}

#[test]
fn missing_config_spoofs_nothing_and_unloads() {
    let mut state = SpoofState::new();
    let mut store = props(&[("ro.serialno", "REAL")]);
    let mut records: RecordTable = AssocVec::new();

    let acts = handle_app_specialize(&mut state, &mut store, &mut records,
        "com.example.app", 0, &ConfigOutcome::Missing);

    assert!(acts.request_unload);
    assert!(acts.field_patches.is_empty());
    assert!(!acts.install_interception);
    assert!(!acts.companion_spoofed);
    assert!(!acts.debug_logging);
    assert_eq!(get_str(&store, "ro.serialno"), Some("REAL"));
    assert!(state.should_unload_after_specialize());
}

#[test]
fn unparseable_config_is_treated_as_no_config() {
    let mut state = SpoofState::new();
    let mut store = props(&[]);
    let mut records: RecordTable = AssocVec::new();

    let acts = handle_app_specialize(&mut state, &mut store, &mut records,
        "com.example.app", 0, &ConfigOutcome::Unparseable);

    assert!(acts.request_unload);
    assert!(acts.field_patches.is_empty());
    assert!(!acts.install_interception);
    assert!(!acts.companion_spoofed);
}

#[test]
fn unlisted_app_unloads_without_patches() {
    let mut state = SpoofState::new();
    let mut store = props(&[]);
    let mut records: RecordTable = AssocVec::new();
    let config = one_app_config("full", &[("ro.build.fingerprint", "X")]);

    let acts = handle_app_specialize(&mut state, &mut store, &mut records,
        "com.other.app", 0, &config);

    assert!(acts.request_unload);
    assert!(acts.field_patches.is_empty());
    assert!(!acts.install_interception);
    assert!(state.intercept_property_read("ro.build.fingerprint").is_none());
}

#[test]
fn stale_record_from_an_earlier_run_self_heals() {
    // an earlier resetprop run was never reverted; the next specialization
    // of the same identity restores first, whatever mode now applies
    let mut store = props(&[("ro.serialno", "ORIGINAL-7")]);
    let mut records: RecordTable = AssocVec::new();
    let resetprop_cfg = one_app_config("resetprop", &[("ro.serialno", "FAKE123")]);
    let mut state = SpoofState::new();
    handle_app_specialize(&mut state, &mut store, &mut records,
        "com.example.app", 0, &resetprop_cfg);
    assert_eq!(get_str(&store, "ro.serialno"), Some("FAKE123"));

    // the app is relaunched in lite mode: the stale record is consumed
    let lite_cfg = one_app_config("lite", &[]);
    let mut state2 = SpoofState::new();
    handle_app_specialize(&mut state2, &mut store, &mut records,
        "com.example.app", 0, &lite_cfg);
    assert_eq!(get_str(&store, "ro.serialno"), Some("ORIGINAL-7"));
    assert!(!records.contains_key("com.example.app@0"));
}

#[test]
fn unknown_patch_target_skips_only_that_field() {
    let mut cfg = Config::new(false);
    cfg.add_app(
        "com.example.app",
        AppConfig {
            mode: "lite".to_string(),
            template: None,
            properties: props(&[
                ("ro.product.model", "Pixel 9"),
                ("custom.unknown.field", "Z"),
                ("ro.product.brand", "google"),
            ]),
            force_denylist_unmount: None,
        },
    );
    let merged = cfg.get_merged_config("com.example.app").unwrap();
    let patches = build_field_patches(&merged);
    // the key naming no known field is skipped; the others still apply,
    // in the fixed field order
    assert_eq!(patches.len(), 2);
    assert_eq!(patches[0].0.as_str(), "BRAND");
    assert_eq!(patches[0].1.as_str(), "google");
    assert_eq!(patches[1].0.as_str(), "MODEL");
    assert_eq!(patches[1].1.as_str(), "Pixel 9");
}

#[test]
fn patch_pass_reports_partial_failure_as_counts() {
    let results = vec![true, false, true];
    let report = field_patch_report(&results);
    assert_eq!(report.attempted, 3);
    assert_eq!(report.applied, 2);
    assert_eq!(report.failed, 1);
}

#[test]
fn denylist_unmount_flag_is_passed_through() {
    let mut cfg = Config::new(true);
    cfg.add_template(
        "hardened",
        Template { properties: props(&[]), force_denylist_unmount: true },
    );
    cfg.add_app(
        "com.example.app",
        AppConfig {
            mode: "lite".to_string(),
            template: Some("hardened".to_string()),
            properties: props(&[]),
            force_denylist_unmount: None,
        },
    );
    let mut state = SpoofState::new();
    let mut store = props(&[]);
    let mut records: RecordTable = AssocVec::new();
    let acts = handle_app_specialize(&mut state, &mut store, &mut records,
        "com.example.app", 0, &ConfigOutcome::Loaded(cfg));
    assert!(acts.force_denylist_unmount);
    assert!(acts.debug_logging);
}
