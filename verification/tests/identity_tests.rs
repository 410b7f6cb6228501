use device_faker::identity::{extract_package_name, package_from_app_data_dir,
    package_from_nice_name};

#[test]
fn package_from_data_dir_is_the_last_segment() {
    assert_eq!(
        package_from_app_data_dir("/data/user/0/com.example.app").as_deref(),
        Some("com.example.app"),
    );
    assert_eq!(package_from_app_data_dir("com.example.app").as_deref(), Some("com.example.app"));
    assert_eq!(package_from_app_data_dir("/data/user/0/"), None);
    assert_eq!(package_from_app_data_dir(""), None);
}

#[test]
fn package_from_nice_name_stops_at_colon() {
    assert_eq!(
        package_from_nice_name("com.example.app:remote").as_deref(),
        Some("com.example.app"),
    );
    assert_eq!(package_from_nice_name("com.example.app").as_deref(), Some("com.example.app"));
    assert_eq!(package_from_nice_name(":remote"), None);
    assert_eq!(package_from_nice_name(""), None);
}

#[test]
fn extraction_falls_back_from_data_dir_to_nice_name() {
    assert_eq!(
        extract_package_name(Some("/data/user/0/com.a"), Some("com.b:svc")).as_deref(),
        Some("com.a"),
    );
    assert_eq!(
        extract_package_name(Some("/data/user/0/"), Some("com.b:svc")).as_deref(),
        Some("com.b"),
    );
    assert_eq!(extract_package_name(None, Some("com.b")).as_deref(), Some("com.b"));
    assert_eq!(extract_package_name(Some("/x/"), Some(":svc")), None);
    assert_eq!(extract_package_name(None, None), None);
}
