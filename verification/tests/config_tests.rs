use spoterm::config::UserConfig;

#[test]
fn new_config_is_empty() {
    let c = UserConfig::new();
    assert_eq!(c.profile.client_id, "");
    assert_eq!(c.profile.client_secret, "");
}

#[test]
fn builders_set_one_field_each() {
    let c = UserConfig::new().client_id("abc".to_string()).client_secret("xyz".to_string());
    assert_eq!(c.profile.client_id, "abc");
    assert_eq!(c.profile.client_secret, "xyz");
    let d = c.client_id("other".to_string());
    assert_eq!(d.profile.client_id, "other");
    assert_eq!(d.profile.client_secret, "xyz");
}

#[test]
fn new_profile_is_empty() {
    let p = spoterm::config::Profile::new();
    assert_eq!(p.client_id, "");
    assert_eq!(p.client_secret, "");
}
