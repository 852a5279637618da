//! Session codec: parses and validates the opaque session credential.
//!
//! A credential is in exactly one of four states: absent, legacy,
//! invalid-current, or valid-current; only the last yields an
//! authenticated identity. The current format is
//! `v2.<subject>.<expiry><tag>` where `<expiry>` is sixteen and `<tag>`
//! eight lowercase hex digits, the tag being a keyed checksum over the
//! credential body and the process-wide signing secret. The deprecated
//! legacy format — a `v1.` prefix, or a bare subject with no separator at
//! all — is recognized structurally and unconditionally rejected, as a
//! distinct outcome, so that the format migration can be reported
//! separately from generic corruption.

use vstd::arithmetic::div_mod::lemma_mod_breakdown;
use vstd::prelude::*;
use vstd::string::StrSliceExecFns;
use vstd::string::StringExecFns;

verus! {

/// Seed of the keyed checksum.
pub const TAG_SEED: u64 = 5381;

/// Why a current-format credential was refused.
#[derive(Clone, Copy, PartialEq, Eq, Structural, Debug)]
pub enum InvalidReason {
    Malformed,
    BadSignature,
    Expired,
}

/// Outcome of session validation. Only `ValidCurrent` carries an
/// authenticated subject identifier.
#[derive(Debug, Clone, PartialEq)]
pub enum SessionOutcome {
    Absent,
    LegacyRejected,
    InvalidCurrent(InvalidReason),
    ValidCurrent(String),
}

/// Mathematical value of a [`SessionOutcome`].
pub enum SessionOutcomeView {
    Absent,
    LegacyRejected,
    InvalidCurrent(InvalidReason),
    ValidCurrent(Seq<char>),
}

impl View for SessionOutcome {
    type V = SessionOutcomeView;

    open spec fn view(&self) -> SessionOutcomeView {
        match self {
            SessionOutcome::Absent => SessionOutcomeView::Absent,
            SessionOutcome::LegacyRejected => SessionOutcomeView::LegacyRejected,
            SessionOutcome::InvalidCurrent(r) => SessionOutcomeView::InvalidCurrent(*r),
            SessionOutcome::ValidCurrent(s) => SessionOutcomeView::ValidCurrent(s@),
        }
    }
}

/// View of an optional credential.
pub open spec fn cred_view(c: Option<&str>) -> Option<Seq<char>> {
    match c {
        Some(s) => Some(s@),
        None => None,
    }
}

/// One step of the keyed checksum; the state stays below `2^32`.
pub open spec fn tag_step(st: u64, c: char) -> u64 {
    (((st as int) * 31 + (c as int)) % 0x1_0000_0000) as u64
}

/// The keyed checksum folded over a sequence of characters.
pub open spec fn tag_fold(st: u64, s: Seq<char>) -> u64
    decreases s.len(),
{
    if s.len() == 0 {
        st
    } else {
        tag_fold(tag_step(st, s[0]), s.drop_first())
    }
}

/// Integrity tag of a payload under the signing secret.
pub open spec fn mac_spec(secret: Seq<char>, payload: Seq<char>) -> u64 {
    tag_fold(TAG_SEED, secret + payload)
}

proof fn lemma_tag_fold_bound(st: u64, s: Seq<char>)
    requires
        st < 0x1_0000_0000,
    ensures
        tag_fold(st, s) < 0x1_0000_0000,
    decreases s.len(),
{
    if s.len() > 0 {
        lemma_tag_fold_bound(tag_step(st, s[0]), s.drop_first());
    }
}

/// Compute the integrity tag of `payload` under `secret`.
fn compute_mac(secret: &str, payload: &str) -> (t: u64)
    ensures
        t == mac_spec(secret@, payload@),
        t < 0x1_0000_0000,
{
    let joined = String::from_str(secret).concat(payload);
    let s = joined.as_str();
    let n = s.unicode_len();
    let mut st: u64 = TAG_SEED;
    let mut i: usize = 0;
    proof {
        assert(s@.subrange(0, n as int) =~= s@);
    }
    while i < n
        invariant
            i <= n,
            n == s@.len(),
            st < 0x1_0000_0000,
            tag_fold(TAG_SEED, s@) == tag_fold(st, s@.subrange(i as int, n as int)),
        decreases n - i,
    {
        let c = s.get_char(i);
        proof {
            assert(s@.subrange(i as int, n as int)[0] == s@[i as int]);
            assert(s@.subrange(i as int, n as int).drop_first() =~= s@.subrange(
                i as int + 1,
                n as int,
            ));
        }
        st = (st * 31 + (c as u64)) % 0x1_0000_0000;
        i = i + 1;
    }
    proof {
        assert(s@.subrange(n as int, n as int) =~= Seq::<char>::empty());
    }
    st
}

/// Numeric value of a hex digit; `16` marks a character that is none.
pub open spec fn hex_digit_val(c: char) -> int {
    if 48 <= c as int && c as int <= 57 {
        c as int - 48
    } else if 97 <= c as int && c as int <= 102 {
        c as int - 87
    } else {
        16
    }
}

/// Is `c` a lowercase hex digit?
pub open spec fn is_hex_digit(c: char) -> bool {
    hex_digit_val(c) < 16
}

/// Are all characters of `s` lowercase hex digits?
pub open spec fn is_hex_seq(s: Seq<char>) -> bool {
    forall|i: int| 0 <= i < s.len() ==> is_hex_digit(#[trigger] s[i])
}

/// Value of a big-endian sequence of hex digits.
pub open spec fn parse_hex(s: Seq<char>) -> int
    decreases s.len(),
{
    if s.len() == 0 {
        0
    } else {
        parse_hex(s.drop_last()) * 16 + hex_digit_val(s.last())
    }
}

/// The lowercase hex digit of a value in `0..16`.
pub open spec fn hex_char_of(d: int) -> char {
    if d == 0 {
        '0'
    } else if d == 1 {
        '1'
    } else if d == 2 {
        '2'
    } else if d == 3 {
        '3'
    } else if d == 4 {
        '4'
    } else if d == 5 {
        '5'
    } else if d == 6 {
        '6'
    } else if d == 7 {
        '7'
    } else if d == 8 {
        '8'
    } else if d == 9 {
        '9'
    } else if d == 10 {
        'a'
    } else if d == 11 {
        'b'
    } else if d == 12 {
        'c'
    } else if d == 13 {
        'd'
    } else if d == 14 {
        'e'
    } else {
        'f'
    }
}

/// `n`-digit big-endian hex rendering of `v` (modulo `16^n`).
pub open spec fn hex_seq(v: int, n: nat) -> Seq<char>
    decreases n,
{
    if n == 0 {
        Seq::empty()
    } else {
        hex_seq(v / 16, (n - 1) as nat).push(hex_char_of(v % 16))
    }
}

/// `16^n`.
pub open spec fn pow16(n: nat) -> int
    decreases n,
{
    if n == 0 {
        1int
    } else {
        16 * pow16((n - 1) as nat)
    }
}

proof fn lemma_pow16_pos(n: nat)
    ensures
        pow16(n) >= 1,
    decreases n,
{
    if n > 0 {
        lemma_pow16_pos((n - 1) as nat);
    }
}

proof fn lemma_pow16_mono(a: nat, b: nat)
    requires
        a <= b,
    ensures
        pow16(a) <= pow16(b),
    decreases b,
{
    lemma_pow16_pos(a);
    if a < b {
        lemma_pow16_mono(a, (b - 1) as nat);
        lemma_pow16_pos((b - 1) as nat);
    }
}

proof fn lemma_pow16_values()
    ensures
        pow16(8) == 0x1_0000_0000,
        pow16(16) == 0x1_0000_0000_0000_0000,
{
    reveal_with_fuel(pow16, 17);
}

proof fn lemma_parse_hex_bound(s: Seq<char>)
    requires
        is_hex_seq(s),
    ensures
        0 <= parse_hex(s) < pow16(s.len()),
    decreases s.len(),
{
    if s.len() > 0 {
        assert(is_hex_seq(s.drop_last())) by {
            assert(forall|i: int|
                0 <= i < s.len() - 1 ==> s.drop_last()[i] == #[trigger] s[i]);
        }
        lemma_parse_hex_bound(s.drop_last());
        assert(0 <= hex_digit_val(s.last()) < 16);
    }
}

proof fn lemma_hex_seq_wf(v: int, n: nat)
    requires
        v >= 0,
    ensures
        hex_seq(v, n).len() == n,
        is_hex_seq(hex_seq(v, n)),
    decreases n,
{
    if n > 0 {
        lemma_hex_seq_wf(v / 16, (n - 1) as nat);
        assert(0 <= v % 16 < 16);
        assert(is_hex_digit(hex_char_of(v % 16)));
    }
}

proof fn lemma_hex_round_trip(v: int, n: nat)
    requires
        v >= 0,
    ensures
        parse_hex(hex_seq(v, n)) == v % pow16(n),
    decreases n,
{
    if n == 0 {
        assert(v % 1 == 0);
    } else {
        lemma_hex_round_trip(v / 16, (n - 1) as nat);
        lemma_pow16_pos((n - 1) as nat);
        let prefix = hex_seq(v / 16, (n - 1) as nat);
        let whole = hex_seq(v, n);
        assert(whole.drop_last() =~= prefix);
        assert(whole.last() == hex_char_of(v % 16));
        assert(hex_digit_val(hex_char_of(v % 16)) == v % 16);
        lemma_mod_breakdown(v, 16, pow16((n - 1) as nat));
        assert(pow16(n) == 16 * pow16((n - 1) as nat));
    }
}

/// Parse the hex digits of `s` between `from` and `to`; `None` when some
/// character there is not a lowercase hex digit.
fn parse_hex_range(s: &str, from: usize, to: usize) -> (r: Option<u64>)
    requires
        from <= to <= s@.len(),
        to - from <= 16,
    ensures
        match r {
            Some(v) => is_hex_seq(s@.subrange(from as int, to as int)) && v as int == parse_hex(
                s@.subrange(from as int, to as int),
            ),
            None => !is_hex_seq(s@.subrange(from as int, to as int)),
        },
{
    let mut v: u64 = 0;
    let mut i: usize = from;
    while i < to
        invariant
            from <= i <= to,
            to <= s@.len(),
            to - from <= 16,
            is_hex_seq(s@.subrange(from as int, i as int)),
            v as int == parse_hex(s@.subrange(from as int, i as int)),
            (v as int) < pow16((i - from) as nat),
        decreases to - i,
    {
        let c = s.get_char(i);
        let cv = c as u32;
        let d: u32 = if 48 <= cv && cv <= 57 {
            cv - 48
        } else if 97 <= cv && cv <= 102 {
            cv - 87
        } else {
            proof {
                assert(s@.subrange(from as int, to as int)[i - from] == s@[i as int]);
                assert(!is_hex_digit(s@[i as int]));
            }
            return None;
        };
        proof {
            let prefix = s@.subrange(from as int, i as int);
            let next = s@.subrange(from as int, i as int + 1);
            assert(next.drop_last() =~= prefix);
            assert(next.last() == s@[i as int]);
            assert(hex_digit_val(s@[i as int]) == d as int);
            lemma_pow16_mono((i + 1 - from) as nat, 16);
            lemma_pow16_values();
        }
        v = v * 16 + (d as u64);
        i = i + 1;
    }
    proof {
        assert(s@.subrange(from as int, i as int) =~= s@.subrange(from as int, to as int));
    }
    Some(v)
}

/// Render `v` as `width` big-endian lowercase hex digits.
fn encode_hex(v: u64, width: usize) -> (r: String)
    ensures
        r@ == hex_seq(v as int, width as nat),
    decreases width,
{
    if width == 0 {
        String::new()
    } else {
        let mut r = encode_hex(v / 16, width - 1);
        let d = v % 16;
        let ds: &str = if d == 0 {
            "0"
        } else if d == 1 {
            "1"
        } else if d == 2 {
            "2"
        } else if d == 3 {
            "3"
        } else if d == 4 {
            "4"
        } else if d == 5 {
            "5"
        } else if d == 6 {
            "6"
        } else if d == 7 {
            "7"
        } else if d == 8 {
            "8"
        } else if d == 9 {
            "9"
        } else if d == 10 {
            "a"
        } else if d == 11 {
            "b"
        } else if d == 12 {
            "c"
        } else if d == 13 {
            "d"
        } else if d == 14 {
            "e"
        } else {
            "f"
        };
        proof {
            reveal_strlit("0");
            reveal_strlit("1");
            reveal_strlit("2");
            reveal_strlit("3");
            reveal_strlit("4");
            reveal_strlit("5");
            reveal_strlit("6");
            reveal_strlit("7");
            reveal_strlit("8");
            reveal_strlit("9");
            reveal_strlit("a");
            reveal_strlit("b");
            reveal_strlit("c");
            reveal_strlit("d");
            reveal_strlit("e");
            reveal_strlit("f");
            assert(ds@ =~= seq![hex_char_of(v as int % 16)]);
        }
        r.append(ds);
        proof {
            assert(r@ =~= hex_seq(v as int, width as nat));
        }
        r
    }
}

/// Does `s` contain a `.` separator?
pub open spec fn has_dot(s: Seq<char>) -> bool {
    exists|i: int| 0 <= i < s.len() && s[i] == '.'
}

/// Is there a `.` in `s` between `from` and `to`?
fn find_dot(s: &str, from: usize, to: usize) -> (r: bool)
    requires
        from <= to <= s@.len(),
    ensures
        r == has_dot(s@.subrange(from as int, to as int)),
{
    let mut i: usize = from;
    while i < to
        invariant
            from <= i <= to,
            to <= s@.len(),
            forall|j: int| from <= j < i ==> s@[j] != '.',
        decreases to - i,
    {
        if s.get_char(i) == '.' {
            proof {
                assert(s@.subrange(from as int, to as int)[i - from] == s@[i as int]);
            }
            return true;
        }
        i = i + 1;
    }
    proof {
        assert(forall|k: int|
            0 <= k < to - from ==> #[trigger] s@.subrange(from as int, to as int)[k] == s@[
                from + k
            ]);
    }
    false
}

/// Structural test for the deprecated legacy format: the old `v1.`
/// version marker, or a bare subject with no separator at all.
pub open spec fn is_legacy_shape(s: Seq<char>) -> bool {
    (s.len() >= 3 && s[0] == 'v' && s[1] == '1' && s[2] == '.') || (s.len() > 0 && !has_dot(s))
}

/// Subject identifier field of a current-shaped credential.
pub open spec fn current_subject(s: Seq<char>) -> Seq<char> {
    s.subrange(3, s.len() - 26)
}

/// Expiry field (sixteen hex digits) of a current-shaped credential.
pub open spec fn current_expiry_digits(s: Seq<char>) -> Seq<char> {
    s.subrange(s.len() - 25, s.len() - 9)
}

/// Tag field (eight hex digits) of a current-shaped credential.
pub open spec fn current_tag_digits(s: Seq<char>) -> Seq<char> {
    s.subrange(s.len() - 8, s.len() as int)
}

/// The part of a current-shaped credential that the tag covers.
pub open spec fn current_payload(s: Seq<char>) -> Seq<char> {
    s.subrange(0, s.len() - 9)
}

/// Structural test for the current format:
/// `v2.<subject>.<expiry:16 hex>.<tag:8 hex>` with a nonempty,
/// separator-free subject.
pub open spec fn is_current_shape(s: Seq<char>) -> bool {
    &&& s.len() >= 30
    &&& s[0] == 'v'
    &&& s[1] == '2'
    &&& s[2] == '.'
    &&& s[s.len() - 26] == '.'
    &&& s[s.len() - 9] == '.'
    &&& !has_dot(current_subject(s))
    &&& is_hex_seq(current_expiry_digits(s))
    &&& is_hex_seq(current_tag_digits(s))
}

/// The whole decoding rule of the session codec. A current-shaped
/// credential is verified against the secret and the clock; a
/// legacy-shaped one is rejected as such; anything else present is
/// malformed.
pub open spec fn decode_spec(secret: Seq<char>, now: u64, cred: Option<Seq<char>>) -> SessionOutcomeView {
    match cred {
        None => SessionOutcomeView::Absent,
        Some(s) => if is_current_shape(s) {
            if parse_hex(current_tag_digits(s)) != mac_spec(secret, current_payload(s)) as int {
                SessionOutcomeView::InvalidCurrent(InvalidReason::BadSignature)
            } else if parse_hex(current_expiry_digits(s)) < now as int {
                SessionOutcomeView::InvalidCurrent(InvalidReason::Expired)
            } else {
                SessionOutcomeView::ValidCurrent(current_subject(s))
            }
        } else if is_legacy_shape(s) {
            SessionOutcomeView::LegacyRejected
        } else {
            SessionOutcomeView::InvalidCurrent(InvalidReason::Malformed)
        },
    }
}

/// Validate the inbound request's session evidence against the signing
/// secret and the current time.
pub fn decode_session(secret: &str, now: u64, cred: Option<&str>) -> (o: SessionOutcome)
    ensures
        o@ == decode_spec(secret@, now, cred_view(cred)),
{
    let s = match cred {
        None => {
            return SessionOutcome::Absent;
        },
        Some(s) => s,
    };
    let n = s.unicode_len();
    if n >= 30 && s.get_char(0) == 'v' && s.get_char(1) == '2' && s.get_char(2) == '.'
        && s.get_char(n - 26) == '.' && s.get_char(n - 9) == '.' {
        if find_dot(s, 3, n - 26) {
            proof {
                assert(s@.subrange(3, n - 26) == current_subject(s@));
                assert(s@[2] == '.');
                assert(has_dot(s@));
            }
            return SessionOutcome::InvalidCurrent(InvalidReason::Malformed);
        }
        let exp = parse_hex_range(s, n - 25, n - 9);
        let tag = parse_hex_range(s, n - 8, n);
        proof {
            assert(s@.subrange(n - 25, n - 9) == current_expiry_digits(s@));
            assert(s@.subrange(n - 8, n as int) == current_tag_digits(s@));
            assert(s@.subrange(3, n - 26) == current_subject(s@));
            assert(s@[2] == '.');
            assert(has_dot(s@));
        }
        match (exp, tag) {
            (Some(e), Some(t)) => {
                let payload = s.substring_char(0, n - 9);
                let m = compute_mac(secret, payload);
                proof {
                    assert(payload@ == current_payload(s@));
                    assert(is_current_shape(s@));
                }
                if t != m {
                    SessionOutcome::InvalidCurrent(InvalidReason::BadSignature)
                } else if e < now {
                    SessionOutcome::InvalidCurrent(InvalidReason::Expired)
                } else {
                    let subject = s.substring_char(3, n - 26);
                    SessionOutcome::ValidCurrent(String::from_str(subject))
                }
            },
            _ => SessionOutcome::InvalidCurrent(InvalidReason::Malformed),
        }
    } else if n >= 3 && s.get_char(0) == 'v' && s.get_char(1) == '1' && s.get_char(2) == '.' {
        SessionOutcome::LegacyRejected
    } else if n > 0 && !find_dot(s, 0, n) {
        proof {
            assert(s@.subrange(0, n as int) =~= s@);
        }
        SessionOutcome::LegacyRejected
    } else {
        proof {
            if n > 0 {
                assert(s@.subrange(0, n as int) =~= s@);
            }
        }
        SessionOutcome::InvalidCurrent(InvalidReason::Malformed)
    }
}

/// A subject identifier the codec can embed: nonempty and free of the
/// `.` separator.
pub open spec fn subject_ok(subject: Seq<char>) -> bool {
    subject.len() > 0 && !has_dot(subject)
}

/// The credential that the issuance flow produces for a subject.
pub open spec fn credential_spec(secret: Seq<char>, subject: Seq<char>, expires_at: u64) -> Seq<char> {
    let payload = "v2."@ + subject + "."@ + hex_seq(expires_at as int, 16);
    payload + "."@ + hex_seq(mac_spec(secret, payload) as int, 8)
}

/// Check that an exec subject is embeddable (see [`subject_ok`]).
pub fn check_subject(subject: &str) -> (r: bool)
    ensures
        r == subject_ok(subject@),
{
    let n = subject.unicode_len();
    if n == 0 {
        return false;
    }
    let dotted = find_dot(subject, 0, n);
    proof {
        assert(subject@.subrange(0, n as int) =~= subject@);
    }
    !dotted
}

/// Issue a current-format credential for `subject` that expires at
/// `expires_at`.
pub fn issue_session(secret: &str, subject: &str, expires_at: u64) -> (cred: String)
    requires
        subject_ok(subject@),
    ensures
        cred@ == credential_spec(secret@, subject@, expires_at),
{
    let mut payload = String::from_str("v2.");
    payload.append(subject);
    payload.append(".");
    let ehex = encode_hex(expires_at, 16);
    payload.append(ehex.as_str());
    proof {
        assert(payload@ =~= "v2."@ + subject@ + "."@ + hex_seq(expires_at as int, 16));
    }
    let tag = compute_mac(secret, payload.as_str());
    let thex = encode_hex(tag, 8);
    let mut cred = payload;
    cred.append(".");
    cred.append(thex.as_str());
    proof {
        assert(cred@ =~= credential_spec(secret@, subject@, expires_at));
    }
    cred
}

/// Round trip through the issuance flow: a credential issued for a
/// subject decodes, with the same secret and before its expiry, to
/// exactly that subject.
pub proof fn lemma_issue_decode_round_trip(
    secret: Seq<char>,
    subject: Seq<char>,
    expires_at: u64,
    now: u64,
)
    requires
        subject_ok(subject),
        now <= expires_at,
    ensures
        decode_spec(secret, now, Some(credential_spec(secret, subject, expires_at)))
            == SessionOutcomeView::ValidCurrent(subject),
{
    reveal_strlit("v2.");
    reveal_strlit(".");
    let m = subject.len() as int;
    let ehex = hex_seq(expires_at as int, 16);
    let payload = "v2."@ + subject + "."@ + ehex;
    let mac = mac_spec(secret, payload);
    let thex = hex_seq(mac as int, 8);
    let c = payload + "."@ + thex;
    lemma_hex_seq_wf(expires_at as int, 16);
    lemma_hex_seq_wf(mac as int, 8);
    assert(c == credential_spec(secret, subject, expires_at));
    let n = c.len() as int;
    assert(n == m + 29);
    assert(c[0] == 'v');
    assert(c[1] == '2');
    assert(c[2] == '.');
    assert(c[n - 26] == '.');
    assert(c[n - 9] == '.');
    assert(current_subject(c) =~= subject);
    assert(current_expiry_digits(c) =~= ehex);
    assert(current_tag_digits(c) =~= thex);
    assert(current_payload(c) =~= payload);
    assert(is_current_shape(c));
    lemma_tag_fold_bound(TAG_SEED, secret + payload);
    lemma_hex_round_trip(mac as int, 8);
    lemma_hex_round_trip(expires_at as int, 16);
    lemma_pow16_values();
    assert(mac as int % pow16(8) == mac as int);
    assert(expires_at as int % pow16(16) == expires_at as int);
    assert(parse_hex(current_tag_digits(c)) == mac as int);
    assert(parse_hex(current_expiry_digits(c)) == expires_at as int);
}

} // verus!
