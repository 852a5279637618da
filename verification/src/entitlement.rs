//! Entitlement aggregator: merges subscription status, newsletter status
//! and persisted settings into one transient summary.
//!
//! The three sub-results are independent and independently failable: a
//! collaborator failure degrades its own field — subscription falls back
//! to the last-known flags on the user record, newsletter degrades to an
//! explicit `Unknown` (never a silent `false`) — and settings pass
//! through as absent when the subject never saved any.

use vstd::prelude::*;

use crate::store::SettingsRecord;
use crate::store::UserRecord;

verus! {

/// Subscription plan of a caller. `Core` is the free tier; the paid
/// plans are named by monthly price and billing period.
#[derive(Clone, Copy, PartialEq, Eq, Structural, Debug)]
pub enum SubscriptionType {
    Core,
    MdnPlus5m,
    MdnPlus5y,
    MdnPlus10m,
    MdnPlus10y,
}

impl SubscriptionType {
    /// Price tier of the plan; the free tier is lowest.
    pub open spec fn tier_spec(self) -> int {
        match self {
            SubscriptionType::Core => 0,
            SubscriptionType::MdnPlus5m => 1,
            SubscriptionType::MdnPlus5y => 1,
            SubscriptionType::MdnPlus10m => 2,
            SubscriptionType::MdnPlus10y => 2,
        }
    }

    /// Billing-period rank: a yearly plan outranks a monthly one.
    pub open spec fn duration_spec(self) -> int {
        match self {
            SubscriptionType::Core => 0,
            SubscriptionType::MdnPlus5m => 0,
            SubscriptionType::MdnPlus5y => 1,
            SubscriptionType::MdnPlus10m => 0,
            SubscriptionType::MdnPlus10y => 1,
        }
    }

    /// Price tier of the plan.
    pub fn tier(self) -> (t: u8)
        ensures
            t as int == self.tier_spec(),
    {
        match self {
            SubscriptionType::Core => 0,
            SubscriptionType::MdnPlus5m => 1,
            SubscriptionType::MdnPlus5y => 1,
            SubscriptionType::MdnPlus10m => 2,
            SubscriptionType::MdnPlus10y => 2,
        }
    }

    /// Billing-period rank.
    pub fn duration_rank(self) -> (d: u8)
        ensures
            d as int == self.duration_spec(),
    {
        match self {
            SubscriptionType::Core => 0,
            SubscriptionType::MdnPlus5m => 0,
            SubscriptionType::MdnPlus5y => 1,
            SubscriptionType::MdnPlus10m => 0,
            SubscriptionType::MdnPlus10y => 1,
        }
    }

    /// Name of the plan on the wire.
    pub open spec fn wire_name_spec(self) -> Seq<char> {
        match self {
            SubscriptionType::Core => "core"@,
            SubscriptionType::MdnPlus5m => "mdn_plus_5m"@,
            SubscriptionType::MdnPlus5y => "mdn_plus_5y"@,
            SubscriptionType::MdnPlus10m => "mdn_plus_10m"@,
            SubscriptionType::MdnPlus10y => "mdn_plus_10y"@,
        }
    }

    /// Name of the plan on the wire.
    pub fn wire_name(self) -> (r: String)
        ensures
            r@ == self.wire_name_spec(),
    {
        match self {
            SubscriptionType::Core => String::from_str("core"),
            SubscriptionType::MdnPlus5m => String::from_str("mdn_plus_5m"),
            SubscriptionType::MdnPlus5y => String::from_str("mdn_plus_5y"),
            SubscriptionType::MdnPlus10m => String::from_str("mdn_plus_10m"),
            SubscriptionType::MdnPlus10y => String::from_str("mdn_plus_10y"),
        }
    }
}

/// One active subscription entry as the subscription-status collaborator
/// reports it.
#[derive(Clone, Copy, PartialEq, Eq, Structural, Debug)]
pub struct SubEntry {
    pub kind: SubscriptionType,
    pub started_at: u64,
}

/// Strict preference between two entries: higher price tier first, then
/// more recent start, then longer billing period.
pub open spec fn better(a: SubEntry, b: SubEntry) -> bool {
    ||| a.kind.tier_spec() > b.kind.tier_spec()
    ||| (a.kind.tier_spec() == b.kind.tier_spec() && a.started_at > b.started_at)
    ||| (a.kind.tier_spec() == b.kind.tier_spec() && a.started_at == b.started_at
        && a.kind.duration_spec() > b.kind.duration_spec())
}

/// The preferred entry among `acc` and everything in `rest`; the
/// earliest of equally preferred entries wins.
pub open spec fn pick(acc: SubEntry, rest: Seq<SubEntry>) -> SubEntry
    decreases rest.len(),
{
    if rest.len() == 0 {
        acc
    } else {
        pick(if better(rest[0], acc) {
            rest[0]
        } else {
            acc
        }, rest.drop_first())
    }
}

/// The entry the aggregator picks when the collaborator reports several.
pub open spec fn best_entry(entries: Seq<SubEntry>) -> Option<SubEntry> {
    if entries.len() == 0 {
        None
    } else {
        Some(pick(entries[0], entries.drop_first()))
    }
}

/// Is `a` preferred over `b`?
pub fn is_better(a: SubEntry, b: SubEntry) -> (r: bool)
    ensures
        r == better(a, b),
{
    let ta = a.kind.tier();
    let tb = b.kind.tier();
    if ta != tb {
        ta > tb
    } else if a.started_at != b.started_at {
        a.started_at > b.started_at
    } else {
        a.kind.duration_rank() > b.kind.duration_rank()
    }
}

/// Pick the preferred entry of a collaborator reply, if any.
pub fn pick_best(entries: &Vec<SubEntry>) -> (r: Option<SubEntry>)
    ensures
        r == best_entry(entries@),
{
    if entries.len() == 0 {
        return None;
    }
    let mut acc = entries[0];
    let mut i: usize = 1;
    proof {
        assert(entries@.subrange(1, entries@.len() as int) =~= entries@.drop_first());
    }
    while i < entries.len()
        invariant
            1 <= i <= entries@.len(),
            best_entry(entries@) == Some(pick(acc, entries@.subrange(i as int, entries@.len() as int))),
        decreases entries@.len() - i,
    {
        let e = entries[i];
        proof {
            let rest = entries@.subrange(i as int, entries@.len() as int);
            assert(rest[0] == entries@[i as int]);
            assert(rest.drop_first() =~= entries@.subrange(i as int + 1, entries@.len() as int));
        }
        if is_better(e, acc) {
            acc = e;
        }
        i = i + 1;
    }
    proof {
        assert(entries@.subrange(entries@.len() as int, entries@.len() as int)
            =~= Seq::<SubEntry>::empty());
    }
    Some(acc)
}

/// What `pick` returns is one of its candidates, and no candidate is
/// preferred over it.
proof fn lemma_pick_maximal(acc: SubEntry, rest: Seq<SubEntry>)
    ensures
        pick(acc, rest) == acc || rest.contains(pick(acc, rest)),
        !better(acc, pick(acc, rest)),
        forall|j: int| 0 <= j < rest.len() ==> !better(#[trigger] rest[j], pick(acc, rest)),
    decreases rest.len(),
{
    if rest.len() > 0 {
        let acc2 = if better(rest[0], acc) {
            rest[0]
        } else {
            acc
        };
        let tail = rest.drop_first();
        lemma_pick_maximal(acc2, tail);
        let r = pick(acc, rest);
        assert(r == pick(acc2, tail));
        if r == acc2 {
            if acc2 != acc {
                assert(rest[0] == r);
                assert(rest.contains(r));
            }
        } else {
            assert(tail.contains(r));
            let w = choose|w: int| 0 <= w < tail.len() && tail[w] == r;
            assert(rest[w + 1] == r);
            assert(rest.contains(r));
        }
        assert(!better(acc, r));
        assert forall|j: int| 0 <= j < rest.len() implies !better(rest[j], r) by {
            if j == 0 {
                assert(!better(acc2, r));
            } else {
                assert(tail[j - 1] == rest[j]);
                assert(!better(tail[j - 1], r));
            }
        }
    }
}

/// The aggregator's choice is an entry the collaborator reported, and no
/// reported entry is preferred over it.
pub proof fn lemma_best_entry_maximal(entries: Seq<SubEntry>)
    requires
        entries.len() > 0,
    ensures
        match best_entry(entries) {
            Some(b) => entries.contains(b) && forall|j: int|
                0 <= j < entries.len() ==> !better(#[trigger] entries[j], b),
            None => false,
        },
{
    let b = best_entry(entries).unwrap();
    let tail = entries.drop_first();
    lemma_pick_maximal(entries[0], tail);
    assert(b == pick(entries[0], tail));
    if b == entries[0] {
        assert(entries.contains(b));
    } else {
        assert(tail.contains(b));
        let w = choose|w: int| 0 <= w < tail.len() && tail[w] == b;
        assert(entries[w + 1] == b);
        assert(entries.contains(b));
    }
    assert forall|j: int| 0 <= j < entries.len() implies !better(entries[j], b) by {
        if j == 0 {
            assert(!better(entries[0], b));
        } else {
            assert(tail[j - 1] == entries[j]);
            assert(!better(tail[j - 1], b));
        }
    }
}

/// Reply of the remote subscription-status collaborator: zero or more
/// active entries, or the collaborator was unreachable.
#[derive(Debug, Clone, PartialEq)]
pub enum SubscriptionFetch {
    Entries(Vec<SubEntry>),
    Unavailable,
}

/// Mathematical value of a [`SubscriptionFetch`].
pub enum SubscriptionFetchView {
    Entries(Seq<SubEntry>),
    Unavailable,
}

impl View for SubscriptionFetch {
    type V = SubscriptionFetchView;

    open spec fn view(&self) -> SubscriptionFetchView {
        match self {
            SubscriptionFetch::Entries(es) => SubscriptionFetchView::Entries(es@),
            SubscriptionFetch::Unavailable => SubscriptionFetchView::Unavailable,
        }
    }
}

/// Reply of the newsletter collaborator: a confirmed answer, or it was
/// unreachable.
#[derive(Clone, Copy, PartialEq, Eq, Structural, Debug)]
pub enum NewsletterFetch {
    Answer(bool),
    Unavailable,
}

/// Three-valued newsletter status: a confirmed `false` and an unknown
/// status due to upstream failure are distinct.
#[derive(Clone, Copy, PartialEq, Eq, Structural, Debug)]
pub enum NewsStatus {
    Subscribed,
    NotSubscribed,
    Unknown,
}

/// Settings as the identity summary surfaces them.
#[derive(Debug, Clone, PartialEq)]
pub struct SettingsOut {
    pub locale_override: Option<String>,
    pub mdnplus_newsletter: bool,
}

/// Mathematical value of a [`SettingsOut`].
pub struct SettingsOutView {
    pub locale_override: Option<Seq<char>>,
    pub mdnplus_newsletter: bool,
}

impl View for SettingsOut {
    type V = SettingsOutView;

    open spec fn view(&self) -> SettingsOutView {
        SettingsOutView {
            locale_override: match self.locale_override {
                Some(ref s) => Some(s@),
                None => None,
            },
            mdnplus_newsletter: self.mdnplus_newsletter,
        }
    }
}

/// Transient entitlement summary, recomputed every request.
#[derive(Debug, Clone, PartialEq)]
pub struct EntitlementSummary {
    pub is_subscriber: bool,
    pub subscription_type: Option<SubscriptionType>,
    pub newsletter: NewsStatus,
    pub settings: Option<SettingsOut>,
}

/// Mathematical value of an [`EntitlementSummary`].
pub struct EntitlementSummaryView {
    pub is_subscriber: bool,
    pub subscription_type: Option<SubscriptionType>,
    pub newsletter: NewsStatus,
    pub settings: Option<SettingsOutView>,
}

impl View for EntitlementSummary {
    type V = EntitlementSummaryView;

    open spec fn view(&self) -> EntitlementSummaryView {
        EntitlementSummaryView {
            is_subscriber: self.is_subscriber,
            subscription_type: self.subscription_type,
            newsletter: self.newsletter,
            settings: match self.settings {
                Some(ref s) => Some(s@),
                None => None,
            },
        }
    }
}

/// Subscription part of the merge: the preferred reported entry decides;
/// a collaborator failure falls back to the last-known flags on the user
/// record (availability over freshness).
pub open spec fn subscription_part_spec(user: UserRecord, subs: SubscriptionFetchView) -> (
    bool,
    Option<SubscriptionType>,
) {
    match subs {
        SubscriptionFetchView::Entries(es) => match best_entry(es) {
            Some(e) => (e.kind.tier_spec() > 0, Some(e.kind)),
            None => (false, None),
        },
        SubscriptionFetchView::Unavailable => (user.is_subscriber, user.subscription_type),
    }
}

/// Newsletter part of the merge: a failure is surfaced as `Unknown`,
/// never asserted as `false`.
pub open spec fn newsletter_part_spec(news: NewsletterFetch) -> NewsStatus {
    match news {
        NewsletterFetch::Answer(true) => NewsStatus::Subscribed,
        NewsletterFetch::Answer(false) => NewsStatus::NotSubscribed,
        NewsletterFetch::Unavailable => NewsStatus::Unknown,
    }
}

/// Settings part of the merge: absence is a valid state and passes
/// through as absent, never materialized into defaults.
pub open spec fn settings_part_spec(settings: Option<SettingsRecord>) -> Option<SettingsOutView> {
    match settings {
        Some(rec) => Some(SettingsOutView {
            locale_override: match rec.locale_override {
                Some(s) => Some(s@),
                None => None,
            },
            mdnplus_newsletter: rec.mdnplus_newsletter,
        }),
        None => None,
    }
}

/// The whole merge rule of the aggregator: the three parts are
/// independent, and a failure in one never corrupts the others.
pub open spec fn aggregate_spec(
    user: UserRecord,
    settings: Option<SettingsRecord>,
    subs: SubscriptionFetchView,
    news: NewsletterFetch,
) -> EntitlementSummaryView {
    let (is_sub, sub_type) = subscription_part_spec(user, subs);
    EntitlementSummaryView {
        is_subscriber: is_sub,
        subscription_type: sub_type,
        newsletter: newsletter_part_spec(news),
        settings: settings_part_spec(settings),
    }
}

/// View of an optional borrowed settings record.
pub open spec fn opt_settings_view(o: Option<&SettingsRecord>) -> Option<SettingsRecord> {
    match o {
        Some(r) => Some(*r),
        None => None,
    }
}

/// Clone an optional string.
pub fn clone_opt_string(o: &Option<String>) -> (r: Option<String>)
    ensures
        r == *o,
{
    match o {
        None => None,
        Some(s) => Some(s.clone()),
    }
}

/// Merge subscription state, newsletter state and persisted settings for
/// a loaded user into one summary.
pub fn aggregate(
    user: &UserRecord,
    settings: Option<&SettingsRecord>,
    subs: &SubscriptionFetch,
    news: &NewsletterFetch,
) -> (e: EntitlementSummary)
    ensures
        e@ == aggregate_spec(*user, opt_settings_view(settings), subs@, *news),
{
    let (is_sub, sub_type): (bool, Option<SubscriptionType>) = match subs {
        SubscriptionFetch::Entries(es) => match pick_best(es) {
            Some(e) => (e.kind.tier() > 0, Some(e.kind)),
            None => (false, None),
        },
        SubscriptionFetch::Unavailable => (user.is_subscriber, user.subscription_type),
    };
    let newsletter = match news {
        NewsletterFetch::Answer(true) => NewsStatus::Subscribed,
        NewsletterFetch::Answer(false) => NewsStatus::NotSubscribed,
        NewsletterFetch::Unavailable => NewsStatus::Unknown,
    };
    let settings_out = match settings {
        Some(rec) => Some(SettingsOut {
            locale_override: clone_opt_string(&rec.locale_override),
            mdnplus_newsletter: rec.mdnplus_newsletter,
        }),
        None => None,
    };
    EntitlementSummary {
        is_subscriber: is_sub,
        subscription_type: sub_type,
        newsletter,
        settings: settings_out,
    }
}

} // verus!
