//! Identity endpoint: per-request orchestration.
//!
//! Every request resolves geo unconditionally, then checks the session;
//! any outcome but a valid current credential yields the anonymous
//! response shape, with no hint of why authentication failed. A valid
//! session loads the user record: an unknown subject is served the same
//! anonymous shape, while an unreachable store fails the request — never
//! silently downgraded to anonymous. Only response assembly
//! distinguishes the anonymous from the authenticated shape.

use vstd::prelude::*;

use crate::entitlement::EntitlementSummaryView;
use crate::entitlement::NewsStatus;
use crate::entitlement::NewsletterFetch;
use crate::entitlement::SettingsOut;
use crate::entitlement::SettingsOutView;
use crate::entitlement::SubscriptionFetch;
use crate::entitlement::SubscriptionFetchView;
use crate::entitlement::SubscriptionType;
use crate::entitlement::aggregate;
use crate::entitlement::aggregate_spec;
use crate::entitlement::opt_settings_view;
use crate::geo::GeoInfo;
use crate::geo::GeoInfoView;
use crate::geo::header_view;
use crate::geo::resolve_geo;
use crate::geo::resolve_geo_spec;
use crate::session::SessionOutcome;
use crate::session::SessionOutcomeView;
use crate::session::cred_view;
use crate::session::decode_session;
use crate::session::decode_spec;
use crate::session::is_current_shape;
use crate::session::is_legacy_shape;
use crate::session::has_dot;
use crate::store::LoadOutcome;
use crate::store::SettingsUpdate;
use crate::store::Store;
use crate::store::UserRecord;
use crate::store::load_identity;
use crate::store::find_settings;
use crate::store::find_user;
use crate::store::merged_settings;

verus! {

/// Fatal outcome of a request; everything else resolves to a response.
#[derive(Clone, Copy, PartialEq, Eq, Structural, Debug)]
pub enum ApiError {
    StorageUnavailable,
    NotAuthenticated,
}

/// The externally visible identity summary. For anonymous callers every
/// authenticated-only field is explicitly absent, not zero-valued.
#[derive(Debug, Clone, PartialEq)]
pub struct WhoamiResponse {
    pub geo: GeoInfo,
    pub is_authenticated: bool,
    pub username: Option<String>,
    pub email: Option<String>,
    pub avatar_url: Option<String>,
    pub is_subscriber: Option<bool>,
    pub subscription_type: Option<SubscriptionType>,
    pub newsletter: Option<NewsStatus>,
    pub settings: Option<SettingsOut>,
}

/// Mathematical value of a [`WhoamiResponse`].
pub struct WhoamiResponseView {
    pub geo: GeoInfoView,
    pub is_authenticated: bool,
    pub username: Option<Seq<char>>,
    pub email: Option<Seq<char>>,
    pub avatar_url: Option<Seq<char>>,
    pub is_subscriber: Option<bool>,
    pub subscription_type: Option<SubscriptionType>,
    pub newsletter: Option<NewsStatus>,
    pub settings: Option<SettingsOutView>,
}

impl View for WhoamiResponse {
    type V = WhoamiResponseView;

    open spec fn view(&self) -> WhoamiResponseView {
        WhoamiResponseView {
            geo: self.geo@,
            is_authenticated: self.is_authenticated,
            username: match self.username {
                Some(ref s) => Some(s@),
                None => None,
            },
            email: match self.email {
                Some(ref s) => Some(s@),
                None => None,
            },
            avatar_url: match self.avatar_url {
                Some(ref s) => Some(s@),
                None => None,
            },
            is_subscriber: self.is_subscriber,
            subscription_type: self.subscription_type,
            newsletter: self.newsletter,
            settings: match self.settings {
                Some(ref s) => Some(s@),
                None => None,
            },
        }
    }
}

/// The anonymous response shape: a geo result and nothing else.
pub open spec fn anonymous_response_spec(geo: GeoInfoView) -> WhoamiResponseView {
    WhoamiResponseView {
        geo,
        is_authenticated: false,
        username: None,
        email: None,
        avatar_url: None,
        is_subscriber: None,
        subscription_type: None,
        newsletter: None,
        settings: None,
    }
}

/// The authenticated response shape for a loaded user and its
/// entitlement summary.
pub open spec fn authenticated_response_spec(
    geo: GeoInfoView,
    u: UserRecord,
    e: EntitlementSummaryView,
) -> WhoamiResponseView {
    WhoamiResponseView {
        geo,
        is_authenticated: true,
        username: Some(u.username@),
        email: Some(u.email@),
        avatar_url: Some(u.avatar_url@),
        is_subscriber: Some(e.is_subscriber),
        subscription_type: e.subscription_type,
        newsletter: Some(e.newsletter),
        settings: e.settings,
    }
}

/// The whole per-request resolution rule of the identity endpoint.
pub open spec fn whoami_spec(
    secret: Seq<char>,
    now: u64,
    cred: Option<Seq<char>>,
    internal: Option<Seq<char>>,
    cdn: Option<Seq<char>>,
    store: Store,
    subs: SubscriptionFetchView,
    news: NewsletterFetch,
) -> Result<WhoamiResponseView, ApiError> {
    let geo = resolve_geo_spec(internal, cdn);
    match decode_spec(secret, now, cred) {
        SessionOutcomeView::ValidCurrent(subject) => if !store.available {
            Err(ApiError::StorageUnavailable)
        } else {
            match find_user(store.users@, subject) {
                None => Ok(anonymous_response_spec(geo)),
                Some(u) => Ok(
                    authenticated_response_spec(
                        geo,
                        u,
                        aggregate_spec(u, find_settings(store.settings@, subject), subs, news),
                    ),
                ),
            }
        },
        _ => Ok(anonymous_response_spec(geo)),
    }
}

/// View of the endpoint's result.
pub open spec fn result_view(r: Result<WhoamiResponse, ApiError>) -> Result<
    WhoamiResponseView,
    ApiError,
> {
    match r {
        Ok(resp) => Ok(resp@),
        Err(e) => Err(e),
    }
}

/// Build the anonymous response around a geo result.
fn anonymous_response(geo: GeoInfo) -> (r: WhoamiResponse)
    ensures
        r@ == anonymous_response_spec(geo@),
{
    WhoamiResponse {
        geo,
        is_authenticated: false,
        username: None,
        email: None,
        avatar_url: None,
        is_subscriber: None,
        subscription_type: None,
        newsletter: None,
        settings: None,
    }
}

/// Resolve one identity-summary request.
///
/// The collaborator replies for the request's subject — storage, the
/// subscription-status service and the newsletter service — are taken as
/// inputs; the caller performs those fetches and hands the results in.
pub fn whoami(
    secret: &str,
    now: u64,
    cred: Option<&str>,
    internal: Option<&str>,
    cdn: Option<&str>,
    store: &Store,
    subs: &SubscriptionFetch,
    news: &NewsletterFetch,
) -> (r: Result<WhoamiResponse, ApiError>)
    ensures
        result_view(r) == whoami_spec(
            secret@,
            now,
            cred_view(cred),
            header_view(internal),
            header_view(cdn),
            *store,
            subs@,
            *news,
        ),
{
    let geo = resolve_geo(internal, cdn);
    let outcome = decode_session(secret, now, cred);
    match outcome {
        SessionOutcome::ValidCurrent(subject) => {
            match load_identity(store, subject.as_str()) {
                LoadOutcome::Unavailable => Err(ApiError::StorageUnavailable),
                LoadOutcome::NoSuchUser => Ok(anonymous_response(geo)),
                LoadOutcome::Loaded(u) => {
                    let settings = store.get_settings(subject.as_str());
                    let ent = aggregate(u, settings, subs, news);
                    Ok(WhoamiResponse {
                        geo,
                        is_authenticated: true,
                        username: Some(u.username.clone()),
                        email: Some(u.email.clone()),
                        avatar_url: Some(u.avatar_url.clone()),
                        is_subscriber: Some(ent.is_subscriber),
                        subscription_type: ent.subscription_type,
                        newsletter: Some(ent.newsletter),
                        settings: ent.settings,
                    })
                },
            }
        },
        _ => Ok(anonymous_response(geo)),
    }
}

/// The settings-write endpoint: an authenticated caller saves a partial
/// settings update; anyone else is refused without touching the store.
/// An unreachable store fails the request.
pub fn update_settings(
    store: &mut Store,
    secret: &str,
    now: u64,
    cred: Option<&str>,
    up: &SettingsUpdate,
) -> (r: Result<(), ApiError>)
    ensures
        match decode_spec(secret@, now, cred_view(cred)) {
            SessionOutcomeView::ValidCurrent(subject) => if !old(store).available {
                r == Err::<(), ApiError>(ApiError::StorageUnavailable) && *final(store) == *old(
                    store,
                )
            } else {
                &&& r == Ok::<(), ApiError>(())
                &&& final(store).available == old(store).available
                &&& final(store).users@ == old(store).users@
                &&& (match find_settings(final(store).settings@, subject) {
                    Some(rec) => rec@ == merged_settings(
                        find_settings(old(store).settings@, subject),
                        subject,
                        up@,
                    ),
                    None => false,
                })
                &&& forall|k: Seq<char>|
                    k != subject ==> #[trigger] find_settings(final(store).settings@, k)
                        == find_settings(old(store).settings@, k)
            },
            _ => r == Err::<(), ApiError>(ApiError::NotAuthenticated) && *final(store) == *old(
                store,
            ),
        },
{
    let outcome = decode_session(secret, now, cred);
    match outcome {
        SessionOutcome::ValidCurrent(subject) => {
            if !store.available {
                return Err(ApiError::StorageUnavailable);
            }
            store.save_settings(subject.as_str(), up);
            Ok(())
        },
        _ => Err(ApiError::NotAuthenticated),
    }
}

/// With no session credential the request still succeeds, the response
/// is anonymous, and it carries the geo result (possibly `Unknown`/`ZZ`).
pub proof fn lemma_no_credential_anonymous(
    secret: Seq<char>,
    now: u64,
    internal: Option<Seq<char>>,
    cdn: Option<Seq<char>>,
    store: Store,
    subs: SubscriptionFetchView,
    news: NewsletterFetch,
)
    ensures
        whoami_spec(secret, now, None, internal, cdn, store, subs, news) == Ok::<
            WhoamiResponseView,
            ApiError,
        >(anonymous_response_spec(resolve_geo_spec(internal, cdn))),
        !anonymous_response_spec(resolve_geo_spec(internal, cdn)).is_authenticated,
{
}

/// A legacy-format credential is never honored: the response is
/// identical to the no-credential case, even when the credential names a
/// subject that exists in storage.
pub proof fn lemma_legacy_like_absent(
    secret: Seq<char>,
    now: u64,
    cred: Seq<char>,
    internal: Option<Seq<char>>,
    cdn: Option<Seq<char>>,
    store: Store,
    subs: SubscriptionFetchView,
    news: NewsletterFetch,
)
    requires
        is_legacy_shape(cred),
    ensures
        whoami_spec(secret, now, Some(cred), internal, cdn, store, subs, news) == whoami_spec(
            secret,
            now,
            None,
            internal,
            cdn,
            store,
            subs,
            news,
        ),
{
    if cred.len() >= 3 && cred[0] == 'v' && cred[1] == '1' && cred[2] == '.' {
        assert(!is_current_shape(cred));
    } else {
        assert(cred.len() > 0 && !has_dot(cred));
        if is_current_shape(cred) {
            assert(cred[2] == '.');
            assert(has_dot(cred));
        }
    }
}

/// No oracle for why authentication failed: any credential that does not
/// validate — legacy, tampered, expired or malformed — yields a response
/// identical to the no-credential case.
pub proof fn lemma_failed_auth_indistinguishable(
    secret: Seq<char>,
    now: u64,
    cred: Seq<char>,
    internal: Option<Seq<char>>,
    cdn: Option<Seq<char>>,
    store: Store,
    subs: SubscriptionFetchView,
    news: NewsletterFetch,
)
    requires
        !(decode_spec(secret, now, Some(cred)) is ValidCurrent),
    ensures
        whoami_spec(secret, now, Some(cred), internal, cdn, store, subs, news) == whoami_spec(
            secret,
            now,
            None,
            internal,
            cdn,
            store,
            subs,
            news,
        ),
{
}

/// A valid current credential for an existing subject authenticates:
/// username and email match the stored record, and settings are absent
/// until a settings write has happened for that subject.
pub proof fn lemma_valid_session_authenticated(
    secret: Seq<char>,
    now: u64,
    cred: Seq<char>,
    subject: Seq<char>,
    u: UserRecord,
    internal: Option<Seq<char>>,
    cdn: Option<Seq<char>>,
    store: Store,
    subs: SubscriptionFetchView,
    news: NewsletterFetch,
)
    requires
        decode_spec(secret, now, Some(cred)) == SessionOutcomeView::ValidCurrent(subject),
        store.available,
        find_user(store.users@, subject) == Some(u),
    ensures
        match whoami_spec(secret, now, Some(cred), internal, cdn, store, subs, news) {
            Ok(resp) => resp.is_authenticated && resp.username == Some(u.username@)
                && resp.email == Some(u.email@) && (find_settings(store.settings@, subject)
                is None ==> resp.settings is None),
            Err(_) => false,
        },
{
}

/// An unknown subject — a session whose subject has no stored record —
/// is served the anonymous shape, not an error.
pub proof fn lemma_unknown_subject_anonymous(
    secret: Seq<char>,
    now: u64,
    cred: Seq<char>,
    subject: Seq<char>,
    internal: Option<Seq<char>>,
    cdn: Option<Seq<char>>,
    store: Store,
    subs: SubscriptionFetchView,
    news: NewsletterFetch,
)
    requires
        decode_spec(secret, now, Some(cred)) == SessionOutcomeView::ValidCurrent(subject),
        store.available,
        find_user(store.users@, subject) is None,
    ensures
        whoami_spec(secret, now, Some(cred), internal, cdn, store, subs, news) == Ok::<
            WhoamiResponseView,
            ApiError,
        >(anonymous_response_spec(resolve_geo_spec(internal, cdn))),
{
}

/// An unreachable store fails an authenticated request; it is never
/// downgraded to an anonymous answer.
pub proof fn lemma_storage_error_propagates(
    secret: Seq<char>,
    now: u64,
    cred: Seq<char>,
    subject: Seq<char>,
    internal: Option<Seq<char>>,
    cdn: Option<Seq<char>>,
    store: Store,
    subs: SubscriptionFetchView,
    news: NewsletterFetch,
)
    requires
        decode_spec(secret, now, Some(cred)) == SessionOutcomeView::ValidCurrent(subject),
        !store.available,
    ensures
        whoami_spec(secret, now, Some(cred), internal, cdn, store, subs, news) == Err::<
            WhoamiResponseView,
            ApiError,
        >(ApiError::StorageUnavailable),
{
}

/// Identical requests resolve identically: repeating the same GET for
/// the same session against the same state yields the same response, in
/// particular the same username, email and subscription type.
pub proof fn lemma_whoami_idempotent(
    r1: Result<WhoamiResponseView, ApiError>,
    r2: Result<WhoamiResponseView, ApiError>,
    secret: Seq<char>,
    now: u64,
    cred: Option<Seq<char>>,
    internal: Option<Seq<char>>,
    cdn: Option<Seq<char>>,
    store: Store,
    subs: SubscriptionFetchView,
    news: NewsletterFetch,
)
    requires
        r1 == whoami_spec(secret, now, cred, internal, cdn, store, subs, news),
        r2 == whoami_spec(secret, now, cred, internal, cdn, store, subs, news),
    ensures
        r1 == r2,
        match (r1, r2) {
            (Ok(a), Ok(b)) => a.username == b.username && a.email == b.email
                && a.subscription_type == b.subscription_type,
            _ => true,
        },
{
}

} // verus!
