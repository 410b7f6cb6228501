use device_faker::companion::{CompanionReply, CompanionRequest, RecordTable,
    handle_companion_request, restore_if_needed, spoof_system_props_via_companion};
use device_faker::strmap::{AssocVec, PropertyMap};

fn props(pairs: &[(&str, &str)]) -> PropertyMap {
    let mut m: PropertyMap = AssocVec::new();
    for (k, v) in pairs {
        m.set(k, (*v).to_string());
    }
    m
}

fn get_str<'a>(m: &'a PropertyMap, key: &str) -> Option<&'a str> {
    m.get(key).map(|s| s.as_str())
}

#[test]
fn spoof_then_restore_returns_store_to_original() {
    let mut store = props(&[("ro.serialno", "REAL-1"), ("ro.product.model", "RealPhone")]);
    let mut records: RecordTable = AssocVec::new();
    let overrides = props(&[("ro.serialno", "FAKE123"), ("ro.boot.flash.locked", "1")]);

    spoof_system_props_via_companion(&mut store, &mut records, &overrides, "com.example.app@0");
    assert_eq!(get_str(&store, "ro.serialno"), Some("FAKE123"));
    assert_eq!(get_str(&store, "ro.boot.flash.locked"), Some("1"));
    assert_eq!(get_str(&store, "ro.product.model"), Some("RealPhone"));
    assert!(records.contains_key("com.example.app@0"));

    let did = restore_if_needed(&mut store, &mut records, "com.example.app@0");
    assert!(did);
    // back to exactly the original store: overwritten key reverted,
    // previously absent key absent again
    assert_eq!(get_str(&store, "ro.serialno"), Some("REAL-1"));
    assert_eq!(get_str(&store, "ro.boot.flash.locked"), None);
    assert_eq!(get_str(&store, "ro.product.model"), Some("RealPhone"));
    assert!(!records.contains_key("com.example.app@0"));
}

#[test]
fn restore_without_record_is_a_noop() {
    let mut store = props(&[("ro.serialno", "REAL-1")]);
    let mut records: RecordTable = AssocVec::new();
    let did = restore_if_needed(&mut store, &mut records, "com.example.app@0");
    assert!(!did);
    assert_eq!(get_str(&store, "ro.serialno"), Some("REAL-1"));
    assert_eq!(store.len(), 1);
}

#[test]
fn records_are_kept_per_identity() {
    let mut store = props(&[("ro.serialno", "REAL-1")]);
    let mut records: RecordTable = AssocVec::new();
    let overrides = props(&[("ro.serialno", "FAKE-A")]);
    spoof_system_props_via_companion(&mut store, &mut records, &overrides, "app.a@0");
    let overrides_b = props(&[("ro.serialno", "FAKE-B")]);
    spoof_system_props_via_companion(&mut store, &mut records, &overrides_b, "app.b@0");

    // restoring the second identity reverts to what it observed: the
    // first identity's spoofed value
    restore_if_needed(&mut store, &mut records, "app.b@0");
    assert_eq!(get_str(&store, "ro.serialno"), Some("FAKE-A"));
    // restoring the first identity reverts to the true original
    restore_if_needed(&mut store, &mut records, "app.a@0");
    assert_eq!(get_str(&store, "ro.serialno"), Some("REAL-1"));
}

#[test]
fn request_dispatch_restores_and_spoofs() {
    let mut store = props(&[("ro.serialno", "REAL-1")]);
    let mut records: RecordTable = AssocVec::new();

    let reply = handle_companion_request(
        &mut store,
        &mut records,
        &CompanionRequest::RestoreIfNeeded("com.example.app@0".to_string()),
    );
    assert!(matches!(reply, CompanionReply::Restored(false)));

    let reply = handle_companion_request(
        &mut store,
        &mut records,
        &CompanionRequest::SpoofProps(
            "com.example.app@0".to_string(),
            props(&[("ro.serialno", "FAKE123")]),
        ),
    );
    assert!(matches!(reply, CompanionReply::Spoofed(true)));
    assert_eq!(get_str(&store, "ro.serialno"), Some("FAKE123"));

    // a second spoof without a restore in between is refused, so the
    // captured prior value is never overwritten
    let reply = handle_companion_request(
        &mut store,
        &mut records,
        &CompanionRequest::SpoofProps(
            "com.example.app@0".to_string(),
            props(&[("ro.serialno", "OTHER")]),
        ),
    );
    assert!(matches!(reply, CompanionReply::Spoofed(false)));
    assert_eq!(get_str(&store, "ro.serialno"), Some("FAKE123"));

    let reply = handle_companion_request(
        &mut store,
        &mut records,
        &CompanionRequest::RestoreIfNeeded("com.example.app@0".to_string()),
    );
    assert!(matches!(reply, CompanionReply::Restored(true)));
    assert_eq!(get_str(&store, "ro.serialno"), Some("REAL-1"));
}
