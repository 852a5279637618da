//! Storage model: the user and settings records that the identity
//! subsystem reads, and the one write path it owns (saving settings).
//!
//! The durable store is consumed as a data-access interface; this module
//! models it as in-memory tables keyed by subject identifier, with an
//! availability flag that stands for the "storage unreachable" failure
//! mode the loader must distinguish from "no such user". Lookups return
//! the first record with the subject's key.

use vstd::prelude::*;

use crate::entitlement::SubscriptionType;
use crate::entitlement::clone_opt_string;
use crate::geo::str_eq;

verus! {

/// Durable user record keyed by subject identifier. The identity core
/// only reads it; `is_subscriber` and `subscription_type` are the most
/// recent known subscription flags, kept as a fallback for collaborator
/// failure.
#[derive(Debug, Clone, PartialEq)]
pub struct UserRecord {
    pub subject_id: String,
    pub username: String,
    pub email: String,
    pub avatar_url: String,
    pub is_subscriber: bool,
    pub subscription_type: Option<SubscriptionType>,
    pub created_at: u64,
}

/// Durable per-subject settings record; absent until the subject first
/// saves a preference.
#[derive(Debug, Clone, PartialEq)]
pub struct SettingsRecord {
    pub subject_id: String,
    pub locale_override: Option<String>,
    pub mdnplus_newsletter: bool,
}

/// Mathematical value of a [`SettingsRecord`].
pub struct SettingsRecordView {
    pub subject_id: Seq<char>,
    pub locale_override: Option<Seq<char>>,
    pub mdnplus_newsletter: bool,
}

impl View for SettingsRecord {
    type V = SettingsRecordView;

    open spec fn view(&self) -> SettingsRecordView {
        SettingsRecordView {
            subject_id: self.subject_id@,
            locale_override: match self.locale_override {
                Some(ref s) => Some(s@),
                None => None,
            },
            mdnplus_newsletter: self.mdnplus_newsletter,
        }
    }
}

/// First user record with the given subject identifier.
pub open spec fn find_user(users: Seq<UserRecord>, subject: Seq<char>) -> Option<UserRecord>
    decreases users.len(),
{
    if users.len() == 0 {
        None
    } else if users[0].subject_id@ == subject {
        Some(users[0])
    } else {
        find_user(users.drop_first(), subject)
    }
}

/// First settings record with the given subject identifier.
pub open spec fn find_settings(s: Seq<SettingsRecord>, subject: Seq<char>) -> Option<SettingsRecord>
    decreases s.len(),
{
    if s.len() == 0 {
        None
    } else if s[0].subject_id@ == subject {
        Some(s[0])
    } else {
        find_settings(s.drop_first(), subject)
    }
}

/// Partial settings write: a field that is `None` is left as it was; a
/// field that is `Some` is set. Clearing the locale override is
/// `Some(None)`.
pub struct SettingsUpdate {
    pub locale_override: Option<Option<String>>,
    pub mdnplus_newsletter: Option<bool>,
}

/// Mathematical value of a [`SettingsUpdate`].
pub struct SettingsUpdateView {
    pub locale_override: Option<Option<Seq<char>>>,
    pub mdnplus_newsletter: Option<bool>,
}

impl View for SettingsUpdate {
    type V = SettingsUpdateView;

    open spec fn view(&self) -> SettingsUpdateView {
        SettingsUpdateView {
            locale_override: match self.locale_override {
                Some(Some(ref s)) => Some(Some(s@)),
                Some(None) => Some(None),
                None => None,
            },
            mdnplus_newsletter: self.mdnplus_newsletter,
        }
    }
}

/// The record that results from applying `up` to a subject's previous
/// settings, or to the explicit defaults when none existed.
pub open spec fn merged_settings(
    prev: Option<SettingsRecord>,
    subject: Seq<char>,
    up: SettingsUpdateView,
) -> SettingsRecordView {
    let base_locale: Option<Seq<char>> = match prev {
        Some(rec) => match rec.locale_override {
            Some(s) => Some(s@),
            None => None,
        },
        None => None,
    };
    let base_newsletter: bool = match prev {
        Some(rec) => rec.mdnplus_newsletter,
        None => false,
    };
    SettingsRecordView {
        subject_id: subject,
        locale_override: match up.locale_override {
            Some(v) => v,
            None => base_locale,
        },
        mdnplus_newsletter: match up.mdnplus_newsletter {
            Some(b) => b,
            None => base_newsletter,
        },
    }
}

/// The storage interface as the identity core consumes it: user and
/// settings tables, and a flag for whether the store can be reached at
/// all.
#[derive(Debug, Clone, PartialEq)]
pub struct Store {
    pub available: bool,
    pub users: Vec<UserRecord>,
    pub settings: Vec<SettingsRecord>,
}

/// Outcome of loading a validated session's subject: the record, the
/// safe-to-anonymize "no such user", or the fatal "cannot tell".
pub enum LoadOutcome<'a> {
    Loaded(&'a UserRecord),
    NoSuchUser,
    Unavailable,
}

/// Identity loader: fetch the user record behind a validated session's
/// subject. A missing record and an unreachable store are distinct
/// outcomes — the former is safe to treat as anonymous, the latter is
/// not.
pub fn load_identity<'a>(store: &'a Store, subject: &str) -> (r: LoadOutcome<'a>)
    ensures
        match r {
            LoadOutcome::Loaded(u) => store.available && find_user(store.users@, subject@)
                == Some(*u),
            LoadOutcome::NoSuchUser => store.available && find_user(store.users@, subject@)
                is None,
            LoadOutcome::Unavailable => !store.available,
        },
{
    if !store.available {
        return LoadOutcome::Unavailable;
    }
    match store.get_user(subject) {
        Some(u) => LoadOutcome::Loaded(u),
        None => LoadOutcome::NoSuchUser,
    }
}

proof fn lemma_find_settings_first(s: Seq<SettingsRecord>, i: int)
    requires
        0 <= i < s.len(),
        forall|j: int| 0 <= j < i ==> (#[trigger] s[j]).subject_id@ != s[i].subject_id@,
    ensures
        find_settings(s, s[i].subject_id@) == Some(s[i]),
    decreases i,
{
    if i > 0 {
        assert(forall|j: int|
            0 <= j < i - 1 ==> (#[trigger] s.drop_first()[j]) == s[j + 1]);
        lemma_find_settings_first(s.drop_first(), i - 1);
        assert(s.drop_first()[i - 1] == s[i]);
    }
}

proof fn lemma_find_settings_none(s: Seq<SettingsRecord>, k: Seq<char>)
    requires
        forall|j: int| 0 <= j < s.len() ==> (#[trigger] s[j]).subject_id@ != k,
    ensures
        find_settings(s, k) is None,
    decreases s.len(),
{
    if s.len() > 0 {
        assert(forall|j: int|
            0 <= j < s.len() - 1 ==> (#[trigger] s.drop_first()[j]) == s[j + 1]);
        lemma_find_settings_none(s.drop_first(), k);
    }
}

proof fn lemma_find_settings_update(s: Seq<SettingsRecord>, i: int, r: SettingsRecord, k: Seq<char>)
    requires
        0 <= i < s.len(),
        s[i].subject_id@ == r.subject_id@,
        forall|j: int| 0 <= j < i ==> (#[trigger] s[j]).subject_id@ != r.subject_id@,
    ensures
        find_settings(s.update(i, r), k) == (if k == r.subject_id@ {
            Some(r)
        } else {
            find_settings(s, k)
        }),
    decreases i,
{
    let s2 = s.update(i, r);
    if i == 0 {
        assert(s2[0] == r);
        assert(s2.drop_first() =~= s.drop_first());
    } else {
        assert(s2[0] == s[0]);
        assert(s2.drop_first() =~= s.drop_first().update(i - 1, r));
        assert(forall|j: int|
            0 <= j < i - 1 ==> (#[trigger] s.drop_first()[j]) == s[j + 1]);
        lemma_find_settings_update(s.drop_first(), i - 1, r, k);
        assert(s.drop_first()[i - 1] == s[i]);
    }
}

proof fn lemma_find_settings_push(s: Seq<SettingsRecord>, r: SettingsRecord, k: Seq<char>)
    ensures
        find_settings(s.push(r), k) == (match find_settings(s, k) {
            Some(x) => Some(x),
            None => if r.subject_id@ == k {
                Some(r)
            } else {
                None
            },
        }),
    decreases s.len(),
{
    if s.len() == 0 {
        assert(s.push(r)[0] == r);
        assert(s.push(r).drop_first() =~= Seq::<SettingsRecord>::empty());
    } else {
        assert(s.push(r)[0] == s[0]);
        assert(s.push(r).drop_first() =~= s.drop_first().push(r));
        lemma_find_settings_push(s.drop_first(), r, k);
    }
}

impl Store {
    /// An empty, reachable store.
    pub fn new() -> (s: Store)
        ensures
            s.available,
            s.users@ == Seq::<UserRecord>::empty(),
            s.settings@ == Seq::<SettingsRecord>::empty(),
    {
        Store { available: true, users: Vec::new(), settings: Vec::new() }
    }

    /// Add a user record.
    pub fn add_user(&mut self, u: UserRecord)
        ensures
            final(self).users@ == old(self).users@.push(u),
            final(self).settings@ == old(self).settings@,
            final(self).available == old(self).available,
    {
        self.users.push(u);
    }

    /// Look a user up by subject identifier.
    pub fn get_user<'a>(&'a self, subject: &str) -> (r: Option<&'a UserRecord>)
        ensures
            match r {
                Some(u) => find_user(self.users@, subject@) == Some(*u),
                None => find_user(self.users@, subject@) is None,
            },
    {
        let n = self.users.len();
        let mut i: usize = 0;
        proof {
            assert(self.users@.subrange(0, n as int) =~= self.users@);
        }
        while i < n
            invariant
                i <= n,
                n == self.users@.len(),
                find_user(self.users@, subject@) == find_user(
                    self.users@.subrange(i as int, n as int),
                    subject@,
                ),
            decreases n - i,
        {
            proof {
                let rest = self.users@.subrange(i as int, n as int);
                assert(rest[0] == self.users@[i as int]);
                assert(rest.drop_first() =~= self.users@.subrange(i as int + 1, n as int));
            }
            let u = &self.users[i];
            if str_eq(u.subject_id.as_str(), subject) {
                return Some(u);
            }
            i = i + 1;
        }
        proof {
            assert(self.users@.subrange(n as int, n as int) =~= Seq::<UserRecord>::empty());
        }
        None
    }

    /// Look a subject's settings up; absence is a valid state.
    pub fn get_settings<'a>(&'a self, subject: &str) -> (r: Option<&'a SettingsRecord>)
        ensures
            match r {
                Some(rec) => find_settings(self.settings@, subject@) == Some(*rec),
                None => find_settings(self.settings@, subject@) is None,
            },
    {
        let n = self.settings.len();
        let mut i: usize = 0;
        proof {
            assert(self.settings@.subrange(0, n as int) =~= self.settings@);
        }
        while i < n
            invariant
                i <= n,
                n == self.settings@.len(),
                find_settings(self.settings@, subject@) == find_settings(
                    self.settings@.subrange(i as int, n as int),
                    subject@,
                ),
            decreases n - i,
        {
            proof {
                let rest = self.settings@.subrange(i as int, n as int);
                assert(rest[0] == self.settings@[i as int]);
                assert(rest.drop_first() =~= self.settings@.subrange(i as int + 1, n as int));
            }
            let rec = &self.settings[i];
            if str_eq(rec.subject_id.as_str(), subject) {
                return Some(rec);
            }
            i = i + 1;
        }
        proof {
            assert(self.settings@.subrange(n as int, n as int)
                =~= Seq::<SettingsRecord>::empty());
        }
        None
    }

    /// Index of the first settings record for `subject`, if any.
    fn find_settings_index(&self, subject: &str) -> (r: Option<usize>)
        ensures
            match r {
                Some(i) => i < self.settings@.len() && self.settings@[i as int].subject_id@
                    == subject@ && forall|j: int|
                    0 <= j < i ==> (#[trigger] self.settings@[j]).subject_id@ != subject@,
                None => forall|j: int|
                    0 <= j < self.settings@.len() ==> (#[trigger] self.settings@[j]).subject_id@
                        != subject@,
            },
    {
        let n = self.settings.len();
        let mut i: usize = 0;
        while i < n
            invariant
                i <= n,
                n == self.settings@.len(),
                forall|j: int|
                    0 <= j < i ==> (#[trigger] self.settings@[j]).subject_id@ != subject@,
            decreases n - i,
        {
            if str_eq(self.settings[i].subject_id.as_str(), subject) {
                return Some(i);
            }
            i = i + 1;
        }
        None
    }

    /// Apply a partial settings write for `subject`: update the existing
    /// record, or create one from the explicit defaults. Every other
    /// subject's settings, the user table and availability are
    /// untouched.
    pub fn save_settings(&mut self, subject: &str, up: &SettingsUpdate)
        ensures
            final(self).available == old(self).available,
            final(self).users@ == old(self).users@,
            (match find_settings(final(self).settings@, subject@) {
                Some(rec) => rec@ == merged_settings(
                    find_settings(old(self).settings@, subject@),
                    subject@,
                    up@,
                ),
                None => false,
            }),
            forall|k: Seq<char>|
                k != subject@ ==> #[trigger] find_settings(final(self).settings@, k)
                    == find_settings(old(self).settings@, k),
    {
        match self.find_settings_index(subject) {
            Some(i) => {
                let prev_locale = clone_opt_string(&self.settings[i].locale_override);
                let prev_newsletter = self.settings[i].mdnplus_newsletter;
                let merged = SettingsRecord {
                    subject_id: String::from_str(subject),
                    locale_override: match &up.locale_override {
                        None => prev_locale,
                        Some(v) => clone_opt_string(v),
                    },
                    mdnplus_newsletter: match up.mdnplus_newsletter {
                        None => prev_newsletter,
                        Some(b) => b,
                    },
                };
                proof {
                    lemma_find_settings_first(self.settings@, i as int);
                }
                let ghost old_settings = self.settings@;
                self.settings[i] = merged;
                proof {
                    lemma_find_settings_update(
                        old_settings,
                        i as int,
                        self.settings@[i as int],
                        subject@,
                    );
                    assert(forall|k: Seq<char>|
                        k != subject@ ==> #[trigger] find_settings(self.settings@, k)
                            == find_settings(old_settings, k)) by {
                        assert(forall|k: Seq<char>|
                            k != subject@ ==> find_settings(self.settings@, k)
                                == find_settings(old_settings, k)) by {
                            assert forall|k: Seq<char>| k != subject@ implies find_settings(
                                self.settings@,
                                k,
                            ) == find_settings(old_settings, k) by {
                                lemma_find_settings_update(
                                    old_settings,
                                    i as int,
                                    self.settings@[i as int],
                                    k,
                                );
                            }
                        }
                    }
                }
            },
            None => {
                let merged = SettingsRecord {
                    subject_id: String::from_str(subject),
                    locale_override: match &up.locale_override {
                        None => None,
                        Some(v) => clone_opt_string(v),
                    },
                    mdnplus_newsletter: match up.mdnplus_newsletter {
                        None => false,
                        Some(b) => b,
                    },
                };
                let ghost old_settings = self.settings@;
                let ghost merged_ghost = merged;
                proof {
                    lemma_find_settings_none(old_settings, subject@);
                }
                self.settings.push(merged);
                proof {
                    assert forall|k: Seq<char>| true implies #[trigger] find_settings(
                        self.settings@,
                        k,
                    ) == (match find_settings(old_settings, k) {
                        Some(x) => Some(x),
                        None => if merged_ghost.subject_id@ == k {
                            Some(merged_ghost)
                        } else {
                            None
                        },
                    }) by {
                        lemma_find_settings_push(old_settings, merged_ghost, k);
                    }
                }
            },
        }
    }
}

} // verus!
