use identity_core::geo::{country_name, resolve_geo, str_eq};

#[test]
fn resolve_geo_default_test() {
    let g = resolve_geo(None, None);
    assert_eq!(g.country, "Unknown");
    assert_eq!(g.country_iso, "ZZ");
}

#[test]
fn resolve_geo_internal_header_test() {
    let g = resolve_geo(Some("IS"), None);
    assert_eq!(g.country, "Iceland");
    assert_eq!(g.country_iso, "IS");
}

#[test]
fn resolve_geo_cdn_header_test() {
    let g = resolve_geo(None, Some("IS"));
    assert_eq!(g.country, "Iceland");
    assert_eq!(g.country_iso, "IS");
}

#[test]
fn resolve_geo_precedence_test() {
    // the internal proxy header wins over the CDN header
    let g = resolve_geo(Some("DE"), Some("IS"));
    assert_eq!(g.country, "Germany");
    assert_eq!(g.country_iso, "DE");
}

#[test]
fn country_name_known_codes_test() {
    assert_eq!(country_name("IS"), "Iceland".to_string());
    assert_eq!(country_name("FR"), "France".to_string());
    assert_eq!(country_name("TW"), "Taiwan".to_string());
}

#[test]
fn country_name_unknown_code_test() {
    // an unrecognized code is its own display name, without crashing
    assert_eq!(country_name("QX"), "QX".to_string());
    assert_eq!(country_name(""), "".to_string());
}

#[test]
fn str_eq_test() {
    assert!(str_eq("abc", "abc"));
    assert!(!str_eq("abc", "abd"));
    assert!(!str_eq("abc", "ab"));
    assert!(str_eq("", ""));
}
