//! License activation and entitlement checks.
//!
//! A license key is four dash-separated groups of five ASCII alphanumeric
//! characters; the fourth group opens with a four-digit uppercase
//! hexadecimal checksum of the first three groups. Activation is local:
//! a key that passes the format gate yields a Premium record bound to the
//! machine's hardware fingerprint. Persistence of the record is the
//! surrounding application's concern; everything that decides is here.

use vstd::prelude::*;

use crate::hashing::{
    digit_char, fnv1a, fnv1a_all, fnv1a_from, fnv1a_str_from, fnv1a_str_take, hex_render, hex_str,
    lemma_hex_str_len, FNV_OFFSET,
};

verus! {

/// Entitlement tier: which application features are enabled.
#[derive(Debug, Clone, Copy, PartialEq, Eq, Structural)]
pub enum LicenseTier {
    Free,
    Premium,
}

/// The one license record of an installation.
#[derive(Debug, PartialEq)]
pub struct LicenseInfo {
    pub key: String,
    pub activated: bool,
    pub tier: LicenseTier,
    pub hardware_id: String,
    pub activation_date: Option<String>,
    pub expiry_date: Option<String>,
}

/// The mathematical model of a license record.
#[verifier::ext_equal]
pub struct LicenseView {
    pub key: Seq<char>,
    pub activated: bool,
    pub tier: LicenseTier,
    pub hardware_id: Seq<char>,
    pub activation_date: Option<Seq<char>>,
    pub expiry_date: Option<Seq<char>>,
}

/// The view of an optional string.
pub open spec fn opt_str_view(o: Option<String>) -> Option<Seq<char>> {
    match o {
        Some(s) => Some(s@),
        None => None,
    }
}

impl View for LicenseInfo {
    type V = LicenseView;

    open spec fn view(&self) -> LicenseView {
        LicenseView {
            key: self.key@,
            activated: self.activated,
            tier: self.tier,
            hardware_id: self.hardware_id@,
            activation_date: opt_str_view(self.activation_date),
            expiry_date: opt_str_view(self.expiry_date),
        }
    }
}

/// The default record: no key, not activated, free tier, no dates.
pub open spec fn default_view() -> LicenseView {
    LicenseView {
        key: Seq::empty(),
        activated: false,
        tier: LicenseTier::Free,
        hardware_id: Seq::empty(),
        activation_date: None,
        expiry_date: None,
    }
}

/// The record produced by activating `key` on the machine `hardware_id`
/// at the moment `date`.
pub open spec fn activated_view(key: Seq<char>, hardware_id: Seq<char>, date: Seq<char>) -> LicenseView {
    LicenseView {
        key: key,
        activated: true,
        tier: LicenseTier::Premium,
        hardware_id: hardware_id,
        activation_date: Some(date),
        expiry_date: None,
    }
}

/// Well-formedness of a license record: a Premium tier is only ever
/// activated, and an activated record is bound to some machine.
pub open spec fn license_wf(v: LicenseView) -> bool {
    &&& v.tier == LicenseTier::Premium ==> v.activated
    &&& v.activated ==> v.hardware_id.len() > 0
}

impl Default for LicenseInfo {
    /// The default record degrades to the free tier.
    fn default() -> (r: Self)
        ensures
            r@ == default_view(),
    {
        let r = LicenseInfo {
            key: String::new(),
            activated: false,
            tier: LicenseTier::Free,
            hardware_id: String::new(),
            activation_date: None,
            expiry_date: None,
        };
        proof {
            assert(r@ =~= default_view());
        }
        r
    }
}

impl Clone for LicenseInfo {
    /// A clone carries the same record.
    fn clone(&self) -> (r: Self)
        ensures
            r@ == self@,
    {
        let r = LicenseInfo {
            key: self.key.clone(),
            activated: self.activated,
            tier: self.tier,
            hardware_id: self.hardware_id.clone(),
            activation_date: match &self.activation_date {
                Some(d) => Some(d.clone()),
                None => None,
            },
            expiry_date: match &self.expiry_date {
                Some(d) => Some(d.clone()),
                None => None,
            },
        };
        proof {
            assert(r@ =~= self@);
        }
        r
    }
}

/// ASCII alphanumeric: a digit or a letter of either case.
pub open spec fn is_alnum_char(c: char) -> bool {
    ||| 48 <= c as u32 && c as u32 <= 57
    ||| 65 <= c as u32 && c as u32 <= 90
    ||| 97 <= c as u32 && c as u32 <= 122
}

/// What the key grammar demands of the character at position `i`:
/// dashes at the three group boundaries, alphanumerics elsewhere.
pub open spec fn key_grammar_char(s: Seq<char>, i: int) -> bool {
    if i == 5 || i == 11 || i == 17 {
        s[i] == '-'
    } else {
        is_alnum_char(s[i])
    }
}

/// The checksum of the joined first three groups: the FNV-1a digest,
/// reduced modulo 0xFFFF and rendered as four uppercase hex digits.
pub open spec fn checksum_str(data: Seq<char>) -> Seq<char> {
    hex_str((fnv1a(data) % 0xFFFF) as u64, 4, true)
}

/// A well-formed license key: 23 characters, the grammar at every
/// position, and the fourth group opening with the checksum of the
/// first three.
pub open spec fn valid_key(s: Seq<char>) -> bool {
    &&& s.len() == 23
    &&& forall|i: int| 0 <= i < 23 ==> key_grammar_char(s, i)
    &&& s.subrange(18, 22) == checksum_str(s.subrange(0, 17))
}

/// ASCII alphanumeric test on one character.
pub fn is_alnum(c: char) -> (r: bool)
    ensures
        r == is_alnum_char(c),
{
    let u = c as u32;
    (48 <= u && u <= 57) || (65 <= u && u <= 90) || (97 <= u && u <= 122)
}

/// Compute the checksum embedded in a license key over the given data,
/// four uppercase hexadecimal digits.
pub fn calculate_checksum(data: &str) -> (r: String)
    ensures
        r@ == checksum_str(data@),
{
    let h = crate::hashing::fnv1a_str(data);
    hex_render(h % 0xFFFF, 4, true)
}

/// Decide whether `key` is a well-formed license key: the grammar
/// `AAAAA-BBBBB-CCCCC-DDDDD` and the embedded checksum.
pub fn validate_license_key(key: &str) -> (r: bool)
    ensures
        r == valid_key(key@),
{
    let n = key.unicode_len();
    if n != 23 {
        return false;
    }
    let mut i: usize = 0;
    while i < 23
        invariant
            key@.len() == 23,
            0 <= i <= 23,
            forall|j: int| 0 <= j < i ==> key_grammar_char(key@, j),
        decreases 23 - i,
    {
        let c = key.get_char(i);
        let ok = if i == 5 || i == 11 || i == 17 {
            c == '-'
        } else {
            is_alnum(c)
        };
        if !ok {
            proof {
                assert(!key_grammar_char(key@, i as int));
            }
            return false;
        }
        i = i + 1;
    }
    let h = fnv1a_str_take(FNV_OFFSET, key, 17);
    let chk = hex_render(h % 0xFFFF, 4, true);
    proof {
        assert(key@.take(17) =~= key@.subrange(0, 17));
        lemma_hex_str_len((fnv1a(key@.subrange(0, 17)) % 0xFFFF) as u64, 4, true);
    }
    let mut j: usize = 0;
    while j < 4
        invariant
            key@.len() == 23,
            chk@ == checksum_str(key@.subrange(0, 17)),
            chk@.len() == 4,
            0 <= j <= 4,
            forall|m: int| 0 <= m < j ==> chk@[m] == key@[18 + m],
        decreases 4 - j,
    {
        let expected = key.get_char(18 + j);
        let got = chk.as_str().get_char(j);
        if got != expected {
            proof {
                assert(key@.subrange(18, 22)[j as int] == key@[18 + j]);
                assert(key@.subrange(18, 22) != checksum_str(key@.subrange(0, 17)));
            }
            return false;
        }
        j = j + 1;
    }
    proof {
        assert(key@.subrange(18, 22) =~= checksum_str(key@.subrange(0, 17)));
    }
    true
}

/// The features the free tier unlocks.
pub open spec fn free_feature(f: Seq<char>) -> bool {
    ||| f == "basic_load"@
    ||| f == "basic_save"@
    ||| f == "grayscale"@
    ||| f == "threshold"@
    ||| f == "basic_export"@
}

/// Which features a tier unlocks: Premium unlocks everything, Free only
/// the fixed basic set.
pub open spec fn feature_available(tier: LicenseTier, f: Seq<char>) -> bool {
    match tier {
        LicenseTier::Premium => true,
        LicenseTier::Free => free_feature(f),
    }
}

/// Character-wise string equality.
pub fn str_eq(a: &str, b: &str) -> (r: bool)
    ensures
        r == (a@ == b@),
{
    let n = a.unicode_len();
    if n != b.unicode_len() {
        return false;
    }
    let mut i: usize = 0;
    while i < n
        invariant
            n == a@.len(),
            n == b@.len(),
            0 <= i <= n,
            forall|j: int| 0 <= j < i ==> a@[j] == b@[j],
        decreases n - i,
    {
        if a.get_char(i) != b.get_char(i) {
            return false;
        }
        i = i + 1;
    }
    proof {
        assert(a@ =~= b@);
    }
    true
}

/// Decide whether a feature is unlocked under the given tier.
pub fn is_feature_available(license_tier: &LicenseTier, feature: &str) -> (r: bool)
    ensures
        r == feature_available(*license_tier, feature@),
{
    match license_tier {
        LicenseTier::Premium => true,
        LicenseTier::Free => {
            str_eq(feature, "basic_load") || str_eq(feature, "basic_save") || str_eq(
                feature,
                "grayscale",
            ) || str_eq(feature, "threshold") || str_eq(feature, "basic_export")
        },
    }
}

/// Failure of an activation attempt.
#[derive(Debug, Clone, Copy, PartialEq, Eq, Structural)]
pub enum ActivationError {
    /// The key failed the grammar or checksum gate.
    InvalidFormat,
}

impl ActivationError {
    /// The human-readable description of the failure.
    pub fn message(&self) -> (r: String)
        ensures
            r@ == "Invalid license key format"@,
    {
        String::from_str("Invalid license key format")
    }
}

/// Activate `key` for the machine `hardware_id` at the moment
/// `activation_date`: a well-formed key yields exactly the activated
/// Premium record; any other key is rejected with `InvalidFormat`.
pub fn activate_license_at(key: &str, hardware_id: &str, activation_date: String) -> (r: Result<
    LicenseInfo,
    ActivationError,
>)
    ensures
        valid_key(key@) ==> (r matches Ok(lic) && lic@ == activated_view(
            key@,
            hardware_id@,
            activation_date@,
        )),
        !valid_key(key@) ==> r == Err::<LicenseInfo, ActivationError>(
            ActivationError::InvalidFormat,
        ),
{
    if !validate_license_key(key) {
        return Err(ActivationError::InvalidFormat);
    }
    let lic = LicenseInfo {
        key: key.to_owned(),
        activated: true,
        tier: LicenseTier::Premium,
        hardware_id: hardware_id.to_owned(),
        activation_date: Some(activation_date),
        expiry_date: None,
    };
    proof {
        assert(lic@ =~= activated_view(key@, hardware_id@, opt_str_view(lic.activation_date)->Some_0));
    }
    Ok(lic)
}

/// Relies on `chrono::Local::now` and `DateTime::to_rfc3339`: the
/// current local time as an RFC 3339 timestamp. The result depends on
/// the clock, so nothing is assumed of it.
#[verifier::external_body]
fn now_rfc3339() -> String {
    chrono::Local::now().to_rfc3339()
}

/// Activate `key` for the machine `hardware_id`, dating the record at
/// the current local time. The date is read from the clock, so the
/// contract pins every field but its value; `activate_license_at` pins
/// the record for each possible date.
pub fn activate_license(key: &str, hardware_id: &str) -> (r: Result<LicenseInfo, ActivationError>)
    ensures
        valid_key(key@) ==> (r matches Ok(lic) && lic.key@ == key@ && lic.activated && lic.tier
            == LicenseTier::Premium && lic.hardware_id@ == hardware_id@ && lic@.activation_date is Some
            && lic@.expiry_date is None),
        !valid_key(key@) ==> r == Err::<LicenseInfo, ActivationError>(
            ActivationError::InvalidFormat,
        ),
{
    activate_license_at(key, hardware_id, now_rfc3339())
}

/// The hardware fingerprint derived from the gathered platform
/// signals: their continued FNV-1a digest, rendered as sixteen
/// lowercase hexadecimal digits.
pub open spec fn fingerprint_str(signals: Seq<Seq<char>>) -> Seq<char> {
    hex_str(fnv1a_all(signals), 16, false)
}

/// Folding one more signal into the running digest is one string round.
proof fn lemma_fnv1a_all_take(s: Seq<Seq<char>>, i: int)
    requires
        0 <= i < s.len(),
    ensures
        fnv1a_all(s.take(i + 1)) == fnv1a_from(fnv1a_all(s.take(i)), s[i]),
{
    assert(s.take(i + 1).drop_last() =~= s.take(i));
    assert(s.take(i + 1).last() == s[i]);
}

/// Derive the machine fingerprint from the gathered hardware signals:
/// a pure function of the signals, so repeated calls on the same
/// machine agree.
pub fn hardware_fingerprint(signals: &Vec<String>) -> (r: String)
    ensures
        r@ == fingerprint_str(signals.deep_view()),
        r@.len() == 16,
{
    let ghost dv = signals.deep_view();
    let mut h = FNV_OFFSET;
    let mut i: usize = 0;
    proof {
        assert(dv.take(0) =~= Seq::<Seq<char>>::empty());
    }
    while i < signals.len()
        invariant
            signals.deep_view() == dv,
            dv.len() == signals@.len(),
            0 <= i <= signals@.len(),
            h == fnv1a_all(dv.take(i as int)),
        decreases signals@.len() - i,
    {
        proof {
            lemma_fnv1a_all_take(dv, i as int);
            assert(dv[i as int] == signals@[i as int]@);
        }
        h = fnv1a_str_from(h, signals[i].as_str());
        i = i + 1;
    }
    proof {
        assert(dv.take(signals@.len() as int) =~= dv);
        lemma_hex_str_len(fnv1a_all(dv), 16, false);
    }
    hex_render(h, 16, false)
}

/// The fingerprint is stable: it depends on the signals alone, so two
/// derivations from the same signals are the same string.
pub proof fn lemma_fingerprint_deterministic(signals: Seq<Seq<char>>, r1: Seq<char>, r2: Seq<char>)
    requires
        r1 == fingerprint_str(signals),
        r2 == fingerprint_str(signals),
    ensures
        r1 == r2,
{
}

/// Every feature is available under the Premium tier.
pub proof fn lemma_premium_unlocks_all(feature: Seq<char>)
    ensures
        feature_available(LicenseTier::Premium, feature),
{
}

/// The default record is the free, unactivated one, and the free tier
/// still allows "basic_save"; with `deactivate_license`'s contract this
/// says that deactivating after any activation restores the exact
/// default record and keeps the basic features available.
pub proof fn lemma_deactivated_record_is_default()
    ensures
        default_view().tier == LicenseTier::Free,
        !default_view().activated,
        default_view().key == Seq::<char>::empty(),
        feature_available(default_view().tier, "basic_save"@),
{
}

/// The default record is well formed.
pub proof fn lemma_default_wf()
    ensures
        license_wf(default_view()),
{
}

/// An activation bound to a named machine yields a well-formed record.
pub proof fn lemma_activated_wf(key: Seq<char>, hardware_id: Seq<char>, date: Seq<char>)
    requires
        hardware_id.len() > 0,
    ensures
        license_wf(activated_view(key, hardware_id, date)),
{
}

/// The digits of a fixed-width hexadecimal rendering are alphanumeric.
pub proof fn lemma_hex_str_alnum(n: u64, width: nat, upper: bool)
    ensures
        forall|i: int| 0 <= i < hex_str(n, width, upper).len() ==> is_alnum_char(
            #[trigger] hex_str(n, width, upper)[i],
        ),
    decreases width,
{
    lemma_hex_str_len(n, width, upper);
    if width > 0 {
        lemma_hex_str_len((n / 16) as u64, (width - 1) as nat, upper);
        lemma_hex_str_alnum((n / 16) as u64, (width - 1) as nat, upper);
        assert(is_alnum_char(digit_char(n % 16, upper)));
    }
}

/// Inserting the computed checksum into the fourth group always yields
/// a key that validates: for any first three groups `base` (seventeen
/// characters, dashes at the group boundaries) and any alphanumeric
/// final character, the assembled key is well formed.
pub proof fn lemma_generated_key_validates(base: Seq<char>, fill: char)
    requires
        base.len() == 17,
        forall|i: int| 0 <= i < 17 ==> key_grammar_char(base, i),
        is_alnum_char(fill),
    ensures
        valid_key(base + seq!['-'] + checksum_str(base) + seq![fill]),
{
    let chk = checksum_str(base);
    lemma_hex_str_len((fnv1a(base) % 0xFFFF) as u64, 4, true);
    lemma_hex_str_alnum((fnv1a(base) % 0xFFFF) as u64, 4, true);
    let k = base + seq!['-'] + chk + seq![fill];
    assert(k.len() == 23);
    assert forall|i: int| 0 <= i < 23 implies key_grammar_char(k, i) by {
        if i < 17 {
            assert((base + seq!['-'])[i] == base[i]);
            assert((base + seq!['-'] + chk)[i] == base[i]);
            assert(k[i] == base[i]);
            assert(key_grammar_char(base, i));
        } else if i == 17 {
            assert((base + seq!['-'])[i] == '-');
            assert((base + seq!['-'] + chk)[i] == '-');
            assert(k[i] == '-');
        } else if i < 22 {
            assert((base + seq!['-'] + chk)[i] == chk[i - 18]);
            assert(k[i] == chk[i - 18]);
            assert(is_alnum_char(chk[i - 18]));
        } else {
            assert(k[i] == fill);
        }
    }
    assert(k.subrange(0, 17) =~= base);
    assert(k.subrange(18, 22) =~= chk);
}

/// The in-memory license record of the running installation: the one
/// logical instance, owned by the caller and passed into every
/// operation.
pub struct LicenseState {
    current: LicenseInfo,
}

impl View for LicenseState {
    type V = LicenseView;

    closed spec fn view(&self) -> LicenseView {
        self.current@
    }
}

impl LicenseState {
    /// Start from a loaded (or defaulted) record.
    pub fn new(initial: LicenseInfo) -> (s: Self)
        ensures
            s@ == initial@,
    {
        LicenseState { current: initial }
    }

    /// The current record.
    pub fn get_license_info(&self) -> (r: LicenseInfo)
        ensures
            r@ == self@,
    {
        self.current.clone()
    }

    /// Whether a feature is unlocked under the current record's tier.
    pub fn check_feature_access(&self, feature: &str) -> (r: bool)
        ensures
            r == feature_available(self@.tier, feature@),
    {
        is_feature_available(&self.current.tier, feature)
    }

    /// Activate a key: on a well-formed key the record becomes exactly
    /// the activated Premium record and is returned; otherwise the
    /// record is left untouched and the format error is returned.
    pub fn activate_license_key(&mut self, key: &str, hardware_id: &str, activation_date: String) -> (r:
        Result<LicenseInfo, ActivationError>)
        ensures
            valid_key(key@) ==> (r matches Ok(lic) && lic@ == activated_view(
                key@,
                hardware_id@,
                activation_date@,
            ) && final(self)@ == lic@),
            !valid_key(key@) ==> r == Err::<LicenseInfo, ActivationError>(
                ActivationError::InvalidFormat,
            ) && final(self)@ == old(self)@,
    {
        match activate_license_at(key, hardware_id, activation_date) {
            Ok(lic) => {
                self.current = lic.clone();
                Ok(lic)
            },
            Err(e) => Err(e),
        }
    }

    /// Reset to the default free record; the returned copy is what the
    /// caller persists.
    pub fn deactivate_license(&mut self) -> (r: LicenseInfo)
        ensures
            final(self)@ == default_view(),
            r@ == default_view(),
    {
        self.current = LicenseInfo::default();
        self.current.clone()
    }
}

} // verus!
