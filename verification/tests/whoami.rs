use identity_core::endpoint::{update_settings, whoami, ApiError};
use identity_core::entitlement::{
    NewsStatus, NewsletterFetch, SubEntry, SubscriptionFetch, SubscriptionType,
};
use identity_core::session::issue_session;
use identity_core::store::{load_identity, LoadOutcome, SettingsUpdate, Store, UserRecord};

const SECRET: &str = "test-signing-secret";
const NOW: u64 = 1_700_000_000;
const EXPIRY: u64 = 1_800_000_000;

fn test_user() -> UserRecord {
    UserRecord {
        subject_id: "TEST_SUB".to_string(),
        username: "TEST_SUB".to_string(),
        email: "test@test.com".to_string(),
        avatar_url: "https://i1.sndcdn.com/avatars-000460644402-0iiiub-t500x500.jpg".to_string(),
        is_subscriber: true,
        subscription_type: Some(SubscriptionType::MdnPlus5m),
        created_at: 1_600_000_000,
    }
}

fn store_with_user() -> Store {
    Store {
        available: true,
        users: vec![test_user()],
        settings: vec![],
    }
}

fn subs_5m() -> SubscriptionFetch {
    SubscriptionFetch::Entries(vec![SubEntry {
        kind: SubscriptionType::MdnPlus5m,
        started_at: 100,
    }])
}

fn no_settings_update() -> SettingsUpdate {
    SettingsUpdate {
        locale_override: None,
        mdnplus_newsletter: None,
    }
}

#[test]
fn whoami_anonymous_test() {
    let store = store_with_user();
    let resp = whoami(
        SECRET,
        NOW,
        None,
        None,
        None,
        &store,
        &SubscriptionFetch::Unavailable,
        &NewsletterFetch::Unavailable,
    )
    .unwrap();
    assert_eq!(resp.geo.country, "Unknown");
    assert_eq!(resp.geo.country_iso, "ZZ");
    assert!(!resp.is_authenticated);
    assert!(resp.username.is_none());
    assert!(resp.email.is_none());
    assert!(resp.avatar_url.is_none());
    assert!(resp.is_subscriber.is_none());
    assert!(resp.subscription_type.is_none());
    assert!(resp.newsletter.is_none());
    assert!(resp.settings.is_none());
}

#[test]
fn whoami_anonymous_test_gcp() {
    let store = store_with_user();
    let resp = whoami(
        SECRET,
        NOW,
        None,
        Some("IS"),
        None,
        &store,
        &SubscriptionFetch::Unavailable,
        &NewsletterFetch::Unavailable,
    )
    .unwrap();
    assert_eq!(resp.geo.country, "Iceland");
    assert_eq!(resp.geo.country_iso, "IS");
    assert!(!resp.is_authenticated);
}

#[test]
fn whoami_anonymous_test_aws() {
    let store = store_with_user();
    let resp = whoami(
        SECRET,
        NOW,
        None,
        None,
        Some("IS"),
        &store,
        &SubscriptionFetch::Unavailable,
        &NewsletterFetch::Unavailable,
    )
    .unwrap();
    assert_eq!(resp.geo.country, "Iceland");
    assert_eq!(resp.geo.country_iso, "IS");
    assert!(!resp.is_authenticated);
}

#[test]
fn whoami_geo_precedence_test() {
    let store = store_with_user();
    let resp = whoami(
        SECRET,
        NOW,
        None,
        Some("DE"),
        Some("IS"),
        &store,
        &SubscriptionFetch::Unavailable,
        &NewsletterFetch::Unavailable,
    )
    .unwrap();
    assert_eq!(resp.geo.country, "Germany");
    assert_eq!(resp.geo.country_iso, "DE");
}

#[test]
fn whoami_logged_in_test() {
    let store = store_with_user();
    let cred = issue_session(SECRET, "TEST_SUB", EXPIRY);
    let resp = whoami(
        SECRET,
        NOW,
        Some(cred.as_str()),
        Some("IS"),
        None,
        &store,
        &subs_5m(),
        &NewsletterFetch::Answer(false),
    )
    .unwrap();
    assert_eq!(resp.geo.country, "Iceland");
    assert_eq!(resp.geo.country_iso, "IS");
    assert_eq!(resp.username.as_deref(), Some("TEST_SUB"));
    assert!(resp.is_authenticated);
    assert_eq!(resp.email.as_deref(), Some("test@test.com"));
    assert_eq!(
        resp.avatar_url.as_deref(),
        Some("https://i1.sndcdn.com/avatars-000460644402-0iiiub-t500x500.jpg")
    );
    assert_eq!(resp.is_subscriber, Some(true));
    assert_eq!(
        resp.subscription_type,
        Some(SubscriptionType::MdnPlus5m),
        "Subscription type wrong"
    );
    assert_eq!(
        resp.subscription_type.unwrap().wire_name(),
        "mdn_plus_5m".to_string()
    );
    assert!(resp.settings.is_none());
}

#[test]
fn whoami_legacy_logged_in_test() {
    let store = store_with_user();
    // a current session authenticates the subject
    let cred = issue_session(SECRET, "TEST_SUB", EXPIRY);
    let resp = whoami(
        SECRET,
        NOW,
        Some(cred.as_str()),
        Some("IS"),
        None,
        &store,
        &subs_5m(),
        &NewsletterFetch::Answer(false),
    )
    .unwrap();
    assert_eq!(resp.geo.country, "Iceland");
    assert_eq!(resp.geo.country_iso, "IS");
    assert_eq!(resp.username.as_deref(), Some("TEST_SUB"));

    // an old-format cookie for the same, existing subject does not
    let resp = whoami(
        SECRET,
        NOW,
        Some("v1.TEST_SUB"),
        Some("IS"),
        None,
        &store,
        &subs_5m(),
        &NewsletterFetch::Answer(false),
    )
    .unwrap();
    assert_eq!(resp.geo.country, "Iceland");
    assert_eq!(resp.geo.country_iso, "IS");
    assert!(resp.username.is_none());
    assert!(!resp.is_authenticated);
}

#[test]
fn whoami_legacy_matches_anonymous_shape_test() {
    let store = store_with_user();
    let anonymous = whoami(
        SECRET,
        NOW,
        None,
        Some("IS"),
        None,
        &store,
        &subs_5m(),
        &NewsletterFetch::Answer(false),
    )
    .unwrap();
    let legacy = whoami(
        SECRET,
        NOW,
        Some("v1.TEST_SUB"),
        Some("IS"),
        None,
        &store,
        &subs_5m(),
        &NewsletterFetch::Answer(false),
    )
    .unwrap();
    assert_eq!(anonymous, legacy);
}

#[test]
fn whoami_settings_test() {
    let mut store = store_with_user();
    let cred = issue_session(SECRET, "TEST_SUB", EXPIRY);
    let resp = whoami(
        SECRET,
        NOW,
        Some(cred.as_str()),
        Some("IS"),
        None,
        &store,
        &subs_5m(),
        &NewsletterFetch::Answer(false),
    )
    .unwrap();
    assert!(resp.is_authenticated);
    assert!(resp.settings.is_none());

    let update = SettingsUpdate {
        locale_override: Some(Some("zh-TW".to_string())),
        mdnplus_newsletter: None,
    };
    let saved = update_settings(&mut store, SECRET, NOW, Some(cred.as_str()), &update);
    assert_eq!(saved, Ok(()));

    let resp = whoami(
        SECRET,
        NOW,
        Some(cred.as_str()),
        Some("IS"),
        None,
        &store,
        &subs_5m(),
        &NewsletterFetch::Answer(false),
    )
    .unwrap();
    let settings = resp.settings.expect("settings record exists after a write");
    assert_eq!(settings.locale_override.as_deref(), Some("zh-TW"));
    assert!(!settings.mdnplus_newsletter);
}

#[test]
fn settings_newsletter_test() {
    let mut store = store_with_user();
    let cred = issue_session(SECRET, "TEST_SUB", EXPIRY);

    // confirmed not subscribed is an explicit answer
    let resp = whoami(
        SECRET,
        NOW,
        Some(cred.as_str()),
        Some("IS"),
        None,
        &store,
        &subs_5m(),
        &NewsletterFetch::Answer(false),
    )
    .unwrap();
    assert_eq!(resp.username.as_deref(), Some("TEST_SUB"));
    assert!(resp.is_authenticated);
    assert_eq!(resp.email.as_deref(), Some("test@test.com"));
    assert_eq!(resp.newsletter, Some(NewsStatus::NotSubscribed));

    // enrolling flips the persisted settings flag
    let update = SettingsUpdate {
        locale_override: None,
        mdnplus_newsletter: Some(true),
    };
    let saved = update_settings(&mut store, SECRET, NOW, Some(cred.as_str()), &update);
    assert_eq!(saved, Ok(()));

    let resp = whoami(
        SECRET,
        NOW,
        Some(cred.as_str()),
        Some("IS"),
        None,
        &store,
        &subs_5m(),
        &NewsletterFetch::Answer(true),
    )
    .unwrap();
    assert_eq!(resp.newsletter, Some(NewsStatus::Subscribed));
    assert!(resp.settings.unwrap().mdnplus_newsletter);
}

#[test]
fn whoami_multiple_subscriptions_test() {
    let store = store_with_user();
    let cred = issue_session(SECRET, "TEST_SUB", EXPIRY);
    let subs = SubscriptionFetch::Entries(vec![
        SubEntry {
            kind: SubscriptionType::MdnPlus5m,
            started_at: 100,
        },
        SubEntry {
            kind: SubscriptionType::MdnPlus5y,
            started_at: 100,
        },
    ]);
    let resp = whoami(
        SECRET,
        NOW,
        Some(cred.as_str()),
        Some("IS"),
        None,
        &store,
        &subs,
        &NewsletterFetch::Answer(false),
    )
    .unwrap();
    assert_eq!(resp.username.as_deref(), Some("TEST_SUB"));
    assert!(resp.is_authenticated);
    assert_eq!(resp.is_subscriber, Some(true));
    assert_eq!(resp.subscription_type, Some(SubscriptionType::MdnPlus5y));
    assert_eq!(
        resp.subscription_type.unwrap().wire_name(),
        "mdn_plus_5y".to_string()
    );
}

#[test]
fn whoami_subscription_tier_precedence_test() {
    let store = store_with_user();
    let cred = issue_session(SECRET, "TEST_SUB", EXPIRY);
    // a higher price tier beats a more recent lower one
    let subs = SubscriptionFetch::Entries(vec![
        SubEntry {
            kind: SubscriptionType::MdnPlus5y,
            started_at: 900,
        },
        SubEntry {
            kind: SubscriptionType::MdnPlus10m,
            started_at: 100,
        },
    ]);
    let resp = whoami(
        SECRET,
        NOW,
        Some(cred.as_str()),
        None,
        None,
        &store,
        &subs,
        &NewsletterFetch::Answer(false),
    )
    .unwrap();
    assert_eq!(resp.subscription_type, Some(SubscriptionType::MdnPlus10m));
}

#[test]
fn whoami_subscription_fallback_test() {
    let store = store_with_user();
    let cred = issue_session(SECRET, "TEST_SUB", EXPIRY);
    // collaborator down: the last-known flags on the record stand in
    let resp = whoami(
        SECRET,
        NOW,
        Some(cred.as_str()),
        None,
        None,
        &store,
        &SubscriptionFetch::Unavailable,
        &NewsletterFetch::Answer(false),
    )
    .unwrap();
    assert_eq!(resp.is_subscriber, Some(true));
    assert_eq!(resp.subscription_type, Some(SubscriptionType::MdnPlus5m));
}

#[test]
fn whoami_subscription_empty_test() {
    let store = store_with_user();
    let cred = issue_session(SECRET, "TEST_SUB", EXPIRY);
    let resp = whoami(
        SECRET,
        NOW,
        Some(cred.as_str()),
        None,
        None,
        &store,
        &SubscriptionFetch::Entries(vec![]),
        &NewsletterFetch::Answer(false),
    )
    .unwrap();
    assert_eq!(resp.is_subscriber, Some(false));
    assert_eq!(resp.subscription_type, None);
}

#[test]
fn whoami_newsletter_unknown_test() {
    let store = store_with_user();
    let cred = issue_session(SECRET, "TEST_SUB", EXPIRY);
    // an unreachable collaborator is unknown, not a silent false
    let resp = whoami(
        SECRET,
        NOW,
        Some(cred.as_str()),
        None,
        None,
        &store,
        &subs_5m(),
        &NewsletterFetch::Unavailable,
    )
    .unwrap();
    assert_eq!(resp.newsletter, Some(NewsStatus::Unknown));
    assert_ne!(resp.newsletter, Some(NewsStatus::NotSubscribed));
}

#[test]
fn whoami_unknown_subject_test() {
    let store = store_with_user();
    let cred = issue_session(SECRET, "GHOST_SUB", EXPIRY);
    let resp = whoami(
        SECRET,
        NOW,
        Some(cred.as_str()),
        Some("IS"),
        None,
        &store,
        &subs_5m(),
        &NewsletterFetch::Answer(false),
    )
    .unwrap();
    assert!(!resp.is_authenticated);
    assert!(resp.username.is_none());
    assert_eq!(resp.geo.country, "Iceland");
}

#[test]
fn whoami_storage_unavailable_test() {
    let mut store = store_with_user();
    store.available = false;
    let cred = issue_session(SECRET, "TEST_SUB", EXPIRY);
    let failed = whoami(
        SECRET,
        NOW,
        Some(cred.as_str()),
        None,
        None,
        &store,
        &subs_5m(),
        &NewsletterFetch::Answer(false),
    );
    assert_eq!(failed, Err(ApiError::StorageUnavailable));

    // an anonymous request never touches storage and still succeeds
    let resp = whoami(
        SECRET,
        NOW,
        None,
        None,
        None,
        &store,
        &subs_5m(),
        &NewsletterFetch::Answer(false),
    )
    .unwrap();
    assert!(!resp.is_authenticated);
}

#[test]
fn whoami_idempotent_test() {
    let store = store_with_user();
    let cred = issue_session(SECRET, "TEST_SUB", EXPIRY);
    let first = whoami(
        SECRET,
        NOW,
        Some(cred.as_str()),
        Some("IS"),
        None,
        &store,
        &subs_5m(),
        &NewsletterFetch::Answer(false),
    )
    .unwrap();
    let second = whoami(
        SECRET,
        NOW,
        Some(cred.as_str()),
        Some("IS"),
        None,
        &store,
        &subs_5m(),
        &NewsletterFetch::Answer(false),
    )
    .unwrap();
    assert_eq!(first.username, second.username);
    assert_eq!(first.email, second.email);
    assert_eq!(first.subscription_type, second.subscription_type);
    assert_eq!(first, second);
}

#[test]
fn update_settings_requires_authentication_test() {
    let mut store = store_with_user();
    let denied = update_settings(&mut store, SECRET, NOW, None, &no_settings_update());
    assert_eq!(denied, Err(ApiError::NotAuthenticated));

    let legacy = update_settings(
        &mut store,
        SECRET,
        NOW,
        Some("v1.TEST_SUB"),
        &no_settings_update(),
    );
    assert_eq!(legacy, Err(ApiError::NotAuthenticated));
    assert!(store.settings.is_empty());
}

#[test]
fn update_settings_storage_unavailable_test() {
    let mut store = store_with_user();
    store.available = false;
    let cred = issue_session(SECRET, "TEST_SUB", EXPIRY);
    let failed = update_settings(
        &mut store,
        SECRET,
        NOW,
        Some(cred.as_str()),
        &no_settings_update(),
    );
    assert_eq!(failed, Err(ApiError::StorageUnavailable));
    assert!(store.settings.is_empty());
}

#[test]
fn load_identity_test() {
    let mut store = store_with_user();
    match load_identity(&store, "TEST_SUB") {
        LoadOutcome::Loaded(u) => assert_eq!(u.username, "TEST_SUB"),
        _ => panic!("expected the stored record"),
    }
    match load_identity(&store, "GHOST_SUB") {
        LoadOutcome::NoSuchUser => {}
        _ => panic!("a missing record is not an error"),
    }
    store.available = false;
    match load_identity(&store, "TEST_SUB") {
        LoadOutcome::Unavailable => {}
        _ => panic!("an unreachable store is not a missing record"),
    }
}

#[test]
fn update_settings_clear_locale_test() {
    let mut store = store_with_user();
    let cred = issue_session(SECRET, "TEST_SUB", EXPIRY);
    let set = SettingsUpdate {
        locale_override: Some(Some("zh-TW".to_string())),
        mdnplus_newsletter: None,
    };
    assert_eq!(
        update_settings(&mut store, SECRET, NOW, Some(cred.as_str()), &set),
        Ok(())
    );
    let clear = SettingsUpdate {
        locale_override: Some(None),
        mdnplus_newsletter: None,
    };
    assert_eq!(
        update_settings(&mut store, SECRET, NOW, Some(cred.as_str()), &clear),
        Ok(())
    );
    let resp = whoami(
        SECRET,
        NOW,
        Some(cred.as_str()),
        None,
        None,
        &store,
        &subs_5m(),
        &NewsletterFetch::Answer(false),
    )
    .unwrap();
    // the record still exists, with the override cleared
    let settings = resp.settings.unwrap();
    assert_eq!(settings.locale_override, None);
}

#[test]
fn update_settings_partial_overwrite_test() {
    let mut store = store_with_user();
    let cred = issue_session(SECRET, "TEST_SUB", EXPIRY);
    let first = SettingsUpdate {
        locale_override: Some(Some("zh-TW".to_string())),
        mdnplus_newsletter: None,
    };
    assert_eq!(
        update_settings(&mut store, SECRET, NOW, Some(cred.as_str()), &first),
        Ok(())
    );
    // a later partial write keeps the untouched field
    let second = SettingsUpdate {
        locale_override: None,
        mdnplus_newsletter: Some(true),
    };
    assert_eq!(
        update_settings(&mut store, SECRET, NOW, Some(cred.as_str()), &second),
        Ok(())
    );
    let resp = whoami(
        SECRET,
        NOW,
        Some(cred.as_str()),
        None,
        None,
        &store,
        &subs_5m(),
        &NewsletterFetch::Answer(true),
    )
    .unwrap();
    let settings = resp.settings.unwrap();
    assert_eq!(settings.locale_override.as_deref(), Some("zh-TW"));
    assert!(settings.mdnplus_newsletter);
}
