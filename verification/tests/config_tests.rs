use device_faker::config::{AppConfig, Config, Template, extract_android_user_id, identity_key,
    u32_to_string};
use device_faker::strmap::{AssocVec, PropertyMap};

fn props(pairs: &[(&str, &str)]) -> PropertyMap {
    let mut m: PropertyMap = AssocVec::new();
    for (k, v) in pairs {
        m.set(k, (*v).to_string());
    }
    m
}

fn get_str<'a>(m: &'a PropertyMap, key: &str) -> Option<&'a str> {
    m.get(key).map(|s| s.as_str())
}

#[test]
fn identity_key_format() {
    assert_eq!(identity_key("com.example.app", 0).as_str(), "com.example.app@0");
    assert_eq!(identity_key("com.example.app", 10).as_str(), "com.example.app@10");
    assert_eq!(identity_key("a.b", 12345).as_str(), "a.b@12345");
}

#[test]
fn decimal_rendering() {
    assert_eq!(u32_to_string(0).as_str(), "0");
    assert_eq!(u32_to_string(7).as_str(), "7");
    assert_eq!(u32_to_string(100000).as_str(), "100000");
    assert_eq!(u32_to_string(u32::MAX).as_str(), "4294967295");
}

#[test]
fn user_id_from_uid() {
    assert_eq!(extract_android_user_id(0), 0);
    assert_eq!(extract_android_user_id(-5), 0);
    assert_eq!(extract_android_user_id(10123), 0);
    assert_eq!(extract_android_user_id(1010123), 10);
}

fn example_config() -> Config {
    let mut cfg = Config::new(false);
    cfg.add_template(
        "pixel",
        Template {
            properties: props(&[
                ("ro.product.model", "Pixel 9"),
                ("ro.product.brand", "google"),
            ]),
            force_denylist_unmount: true,
        },
    );
    cfg.add_app(
        "com.example.app",
        AppConfig {
            mode: "lite".to_string(),
            template: Some("pixel".to_string()),
            properties: props(&[("ro.product.model", "Pixel 2")]),
            force_denylist_unmount: None,
        },
    );
    cfg
}

#[test]
fn merge_inline_overrides_template() {
    let cfg = example_config();
    let merged = cfg.get_merged_config("com.example.app").unwrap();
    // the inline value wins for a key both define
    assert_eq!(get_str(&merged.properties, "ro.product.model"), Some("Pixel 2"));
    // template-only keys survive
    assert_eq!(get_str(&merged.properties, "ro.product.brand"), Some("google"));
    assert_eq!(get_str(&merged.properties, "ro.product.device"), None);
    assert_eq!(merged.mode.as_str(), "lite");
}

#[test]
fn merge_called_twice_is_identical() {
    let cfg = example_config();
    let m1 = cfg.get_merged_config("com.example.app").unwrap();
    let m2 = cfg.get_merged_config("com.example.app").unwrap();
    assert_eq!(m1.mode, m2.mode);
    assert_eq!(m1.force_denylist_unmount, m2.force_denylist_unmount);
    for key in ["ro.product.model", "ro.product.brand", "ro.build.id"] {
        assert_eq!(get_str(&m1.properties, key), get_str(&m2.properties, key));
    }
}

#[test]
fn flag_combines_unless_overridden() {
    // template sets the flag and the app does not override: the flag holds
    let cfg = example_config();
    let merged = cfg.get_merged_config("com.example.app").unwrap();
    assert!(merged.force_denylist_unmount);

    // an explicit app override wins over the template
    let mut cfg2 = Config::new(false);
    cfg2.add_template(
        "pixel",
        Template { properties: props(&[]), force_denylist_unmount: true },
    );
    cfg2.add_app(
        "com.example.app",
        AppConfig {
            mode: "lite".to_string(),
            template: Some("pixel".to_string()),
            properties: props(&[]),
            force_denylist_unmount: Some(false),
        },
    );
    let merged2 = cfg2.get_merged_config("com.example.app").unwrap();
    assert!(!merged2.force_denylist_unmount);
}

#[test]
fn missing_template_contributes_nothing() {
    let mut cfg = Config::new(false);
    cfg.add_app(
        "com.example.app",
        AppConfig {
            mode: "full".to_string(),
            template: Some("no.such.template".to_string()),
            properties: props(&[("ro.serialno", "X")]),
            force_denylist_unmount: None,
        },
    );
    let merged = cfg.get_merged_config("com.example.app").unwrap();
    assert_eq!(get_str(&merged.properties, "ro.serialno"), Some("X"));
    assert!(!merged.force_denylist_unmount);
    assert_eq!(merged.properties.len(), 1);
}

#[test]
fn identity_resolution_fallback() {
    let mut cfg = Config::new(false);
    cfg.add_app(
        "com.example.app@0",
        AppConfig {
            mode: "full".to_string(),
            template: None,
            properties: props(&[]),
            force_denylist_unmount: None,
        },
    );
    cfg.add_app(
        "com.example.app",
        AppConfig {
            mode: "lite".to_string(),
            template: None,
            properties: props(&[]),
            force_denylist_unmount: None,
        },
    );
    // the keyed entry wins for user 0
    let m0 = cfg.get_merged_for_identity("com.example.app", 0).unwrap();
    assert_eq!(m0.mode.as_str(), "full");
    // another user falls back to the bare package entry
    let m1 = cfg.get_merged_for_identity("com.example.app", 1).unwrap();
    assert_eq!(m1.mode.as_str(), "lite");
    // neither key present: None
    assert!(cfg.get_merged_for_identity("com.other.app", 0).is_none());
}

#[test]
fn empty_property_set_yields_empty_map() {
    let mut cfg = Config::new(false);
    cfg.add_app(
        "com.example.app",
        AppConfig {
            mode: "lite".to_string(),
            template: None,
            properties: props(&[]),
            force_denylist_unmount: None,
        },
    );
    let merged = cfg.get_merged_config("com.example.app").unwrap();
    let map = Config::build_merged_property_map(&merged);
    assert!(map.is_empty());
}
