//! Portable profile bundles: a profile version and its evaluation plan with
//! their digests, checked on the way in, and given fresh identities when
//! they are imported as a copy.
use vstd::prelude::*;

use crate::canonical;
use crate::canonical::write_uuid_text;
use crate::ids;
use crate::text::{chars_of, str_eq, string_from};

use super::hashing;
use super::hashing::{hash_profile_version, HashError};
use super::models::{EvalPlan, ExpertProfileVersion, MeetingPlaybook};
use super::repository::{ExpertProfileRepositoryError, StoredEvalPlan, StoredProfileVersion};
use super::validation;
use super::validation::{Validate, ValidationErrors};

verus! {

pub const BUNDLE_FORMAT: &'static str = "meetily-profile";

pub const BUNDLE_FORMAT_VERSION: u32 = 1;

pub const MAX_BUNDLE_BYTES: usize = 1048576;

pub const MAX_BUNDLE_DEPTH: usize = 32;

#[derive(Debug, Clone, PartialEq, Eq)]
pub struct ExpertProfileBundle {
    pub format: String,
    pub format_version: u32,
    pub manifest: BundleManifest,
    pub digests: BundleDigests,
}

#[derive(Debug, Clone, PartialEq, Eq)]
pub struct BundleManifest {
    pub schema_version: u32,
    pub profile: BundleProfile,
    pub eval_plan: BundleEvalPlan,
}

#[derive(Debug, Clone, PartialEq, Eq)]
pub struct BundleProfile {
    pub id: u128,
    pub version_hash: String,
    pub content: ExpertProfileVersion,
}

#[derive(Debug, Clone, PartialEq, Eq)]
pub struct BundleEvalPlan {
    pub id: u128,
    pub content_hash: String,
    pub content: EvalPlan,
}

#[derive(Debug, Clone, PartialEq, Eq)]
pub struct BundleDigests {
    pub profile: String,
    pub eval_plan: String,
}

#[derive(Debug, Clone, Copy, PartialEq, Eq, Structural)]
pub enum ImportIdentityMode {
    Clone,
    RestoreIdentity,
}

/// What an import stored, and which new playbook id replaced each old one.
#[derive(Debug, Clone, PartialEq, Eq)]
pub struct ImportResult {
    pub profile_id: u128,
    pub plan_id: u128,
    pub profile_version: StoredProfileVersion,
    pub eval_plan: StoredEvalPlan,
    pub playbook_id_remap: Vec<(u128, u128)>,
}

#[derive(Debug, Clone, PartialEq, Eq)]
pub enum BundleError {
    LimitExceeded,
    DepthExceeded,
    UnsupportedFormat,
    Schema(String),
    DigestMismatch(&'static str),
    IdentityConflict,
    Validation(ValidationErrors),
    Hash(HashError),
    Repository(ExpertProfileRepositoryError),
}

impl BundleError {
    pub open spec fn spec_message(&self) -> Seq<char> {
        match self {
            BundleError::LimitExceeded => "LIMIT_EXCEEDED: profile bundle exceeds the 1 MiB limit"@,
            BundleError::DepthExceeded => "LIMIT_EXCEEDED: profile bundle nesting exceeds depth 32"@,
            BundleError::UnsupportedFormat =>
                "UNSUPPORTED_FORMAT_VERSION: expected meetily-profile v1"@,
            BundleError::Schema(m) => "SCHEMA_MISMATCH: "@ + m@,
            BundleError::DigestMismatch(what) => "DIGEST_MISMATCH: "@ + what@,
            BundleError::IdentityConflict => "restore identity conflicts with an existing profile"@,
            BundleError::Validation(_) => "expert profile validation failed"@,
            BundleError::Hash(e) => e.spec_message(),
            BundleError::Repository(e) => e.spec_message(),
        }
    }

    /// The human-readable message of the error.
    pub fn message(&self) -> (r: String)
        ensures
            r@ == self.spec_message(),
    {
        let mut out = String::new();
        match self {
            BundleError::LimitExceeded => {
                crate::text::push_str(&mut out, "LIMIT_EXCEEDED: profile bundle exceeds the 1 MiB limit");
            },
            BundleError::DepthExceeded => {
                crate::text::push_str(&mut out, "LIMIT_EXCEEDED: profile bundle nesting exceeds depth 32");
            },
            BundleError::UnsupportedFormat => {
                crate::text::push_str(&mut out, "UNSUPPORTED_FORMAT_VERSION: expected meetily-profile v1");
            },
            BundleError::Schema(m) => {
                crate::text::push_str(&mut out, "SCHEMA_MISMATCH: ");
                crate::text::push_str(&mut out, m.as_str());
            },
            BundleError::DigestMismatch(what) => {
                crate::text::push_str(&mut out, "DIGEST_MISMATCH: ");
                crate::text::push_str(&mut out, what);
            },
            BundleError::IdentityConflict => {
                crate::text::push_str(&mut out, "restore identity conflicts with an existing profile");
            },
            BundleError::Validation(e) => {
                crate::text::push_str(&mut out, e.message());
            },
            BundleError::Hash(e) => {
                out = e.message();
            },
            BundleError::Repository(e) => {
                out = e.message();
            },
        }
        proof {
            assert(out@ =~= self.spec_message());
        }
        out
    }
}

// ----------------------------------------------------------------------------
// Input limits
// ----------------------------------------------------------------------------
/// The nesting scan after the first `n` characters: current depth, deepest
/// depth so far, inside a string, after a backslash in a string.
pub open spec fn depth_scan(s: Seq<char>, n: int) -> (nat, nat, bool, bool)
    decreases n,
{
    if n <= 0 {
        (0, 0, false, false)
    } else {
        let (cur, max, in_string, escaped) = depth_scan(s, n - 1);
        let c = s[n - 1];
        if in_string {
            if escaped {
                (cur, max, true, false)
            } else if c == '\\' {
                (cur, max, true, true)
            } else if c == '"' {
                (cur, max, false, false)
            } else {
                (cur, max, true, false)
            }
        } else if c == '"' {
            (cur, max, true, false)
        } else if c == '{' || c == '[' {
            (cur + 1, if cur + 1 > max {
                (cur + 1) as nat
            } else {
                max
            }, false, false)
        } else if c == '}' || c == ']' {
            (if cur > 0 {
                (cur - 1) as nat
            } else {
                0
            }, max, false, false)
        } else {
            (cur, max, false, false)
        }
    }
}

/// The deepest nesting of objects and arrays in a JSON text, brackets
/// inside strings not counted.
pub open spec fn json_depth_of(s: Seq<char>) -> nat {
    depth_scan(s, s.len() as int).1
}

proof fn lemma_depth_scan_bounds(s: Seq<char>, n: int)
    requires
        0 <= n <= s.len(),
    ensures
        depth_scan(s, n).0 <= depth_scan(s, n).1 <= n,
    decreases n,
{
    if n > 0 {
        lemma_depth_scan_bounds(s, n - 1);
    }
}

pub fn json_depth(input: &str) -> (r: usize)
    ensures
        r == json_depth_of(input@),
{
    let chars = chars_of(input);
    let mut current: usize = 0;
    let mut maximum: usize = 0;
    let mut in_string = false;
    let mut escaped = false;
    let mut i: usize = 0;
    while i < chars.len()
        invariant
            chars@ == input@,
            0 <= i <= chars@.len(),
            depth_scan(input@, i as int) == (current as nat, maximum as nat, in_string, escaped),
        decreases chars.len() - i,
    {
        proof {
            lemma_depth_scan_bounds(input@, i as int);
        }
        let c = chars[i];
        if in_string {
            if escaped {
                escaped = false;
            } else if c == '\\' {
                escaped = true;
            } else if c == '"' {
                in_string = false;
            }
        } else if c == '"' {
            in_string = true;
        } else if c == '{' || c == '[' {
            current += 1;
            if current > maximum {
                maximum = current;
            }
        } else if c == '}' || c == ']' {
            current = current.saturating_sub(1);
        }
        i += 1;
    }
    proof {
        assert(chars@.len() == input@.len());
    }
    maximum
}

/// Rejects a bundle text above one mebibyte, or nested deeper than 32,
/// before it is parsed.
pub fn check_bundle_input(input: &str) -> (r: Result<(), BundleError>)
    ensures
        validation::byte_len(input@) > MAX_BUNDLE_BYTES ==> r == Err::<(), BundleError>(
            BundleError::LimitExceeded,
        ),
        validation::byte_len(input@) <= MAX_BUNDLE_BYTES && json_depth_of(input@) > MAX_BUNDLE_DEPTH
            ==> r == Err::<(), BundleError>(BundleError::DepthExceeded),
        validation::byte_len(input@) <= MAX_BUNDLE_BYTES && json_depth_of(input@)
            <= MAX_BUNDLE_DEPTH ==> r is Ok,
{
    if input.as_bytes().len() > MAX_BUNDLE_BYTES {
        return Err(BundleError::LimitExceeded);
    }
    if json_depth(input) > MAX_BUNDLE_DEPTH {
        return Err(BundleError::DepthExceeded);
    }
    Ok(())
}

// ----------------------------------------------------------------------------
// Checking a bundle
// ----------------------------------------------------------------------------
fn uuid_string(id: u128) -> (r: String)
    ensures
        r@ == canonical::uuid_text(id),
{
    let mut out = String::new();
    write_uuid_text(&mut out, id);
    proof {
        assert(out@ =~= canonical::uuid_text(id));
    }
    out
}

fn validated(r: Result<(), ValidationErrors>) -> (out: Result<(), BundleError>)
    ensures
        match r {
            Ok(()) => out is Ok,
            Err(e) => out == Err::<(), BundleError>(BundleError::Validation(e)),
        },
{
    match r {
        Ok(()) => Ok(()),
        Err(e) => Err(BundleError::Validation(e)),
    }
}

/// What checking a profile and plan against claimed digests returns: the
/// validation failures first, then a profile digest that does not match
/// either claim, then a plan digest that does not match either claim.
/// `plan_digest` is the digest of the plan content.
pub open spec fn content_outcome(
    profile: ExpertProfileVersion,
    plan: EvalPlan,
    plan_digest: Seq<char>,
    profile_claims: (Seq<char>, Seq<char>),
    profile_name: &'static str,
    plan_claims: (Seq<char>, Seq<char>),
    r: Result<(), BundleError>,
) -> bool {
    if validation::profile_issues(profile).len() > 0 {
        r matches Err(BundleError::Validation(e)) && validation::issues_view(e.0@)
            == validation::profile_issues(profile)
    } else if validation::plan_for_profile_issues(plan, profile).len() > 0 {
        r matches Err(BundleError::Validation(e)) && validation::issues_view(e.0@)
            == validation::plan_for_profile_issues(plan, profile)
    } else if profile_claims.0 != hashing::profile_digest(profile) || profile_claims.1
        != hashing::profile_digest(profile) {
        r == Err::<(), BundleError>(BundleError::DigestMismatch(profile_name))
    } else if plan_claims.0 != plan_digest || plan_claims.1 != plan_digest {
        r == Err::<(), BundleError>(BundleError::DigestMismatch("evaluation plan"))
    } else {
        r is Ok
    }
}

#[verifier::spinoff_prover]
#[verifier::rlimit(40)]
fn check_content(
    profile: &ExpertProfileVersion,
    plan: &EvalPlan,
    computed_plan_hash: &str,
    profile_claim_a: &str,
    profile_claim_b: &str,
    profile_name: &'static str,
    plan_claim_a: &str,
    plan_claim_b: &str,
) -> (r: Result<(), BundleError>)
    ensures
        content_outcome(
            *profile,
            *plan,
            computed_plan_hash@,
            (profile_claim_a@, profile_claim_b@),
            profile_name,
            (plan_claim_a@, plan_claim_b@),
            r,
        ),
{
    validated(profile.validate())?;
    validated(plan.validate_for_profile(profile))?;
    let profile_hash = match hash_profile_version(profile) {
        Ok(h) => h,
        Err(e) => {
            return Err(BundleError::Hash(e));
        },
    };
    if !str_eq(profile_hash.as_str(), profile_claim_a) || !str_eq(
        profile_hash.as_str(),
        profile_claim_b,
    ) {
        return Err(BundleError::DigestMismatch(profile_name));
    }
    if !str_eq(computed_plan_hash, plan_claim_a) || !str_eq(computed_plan_hash, plan_claim_b) {
        return Err(BundleError::DigestMismatch("evaluation plan"));
    }
    Ok(())
}

impl ExpertProfileBundle {
    /// Bundles a profile version and its plan once both are valid and match
    /// the digests they are exported under; `computed_plan_hash` is the
    /// digest of the plan's content.
    #[verifier::spinoff_prover]
    pub fn new(
        profile_id: u128,
        version_hash: String,
        profile: ExpertProfileVersion,
        plan_id: u128,
        plan_hash: String,
        plan: EvalPlan,
        computed_plan_hash: &str,
    ) -> (r: Result<ExpertProfileBundle, BundleError>)
        ensures
            content_outcome(
                profile,
                plan,
                computed_plan_hash@,
                (version_hash@, version_hash@),
                "profile version",
                (plan_hash@, plan_hash@),
                match r {
                    Ok(_) => Ok(()),
                    Err(e) => Err(e),
                },
            ),
            r matches Ok(b) ==> {
                &&& b.format@ == BUNDLE_FORMAT@
                &&& b.format_version == BUNDLE_FORMAT_VERSION
                &&& b.manifest.schema_version == 1
                &&& b.manifest.profile == BundleProfile {
                    id: profile_id,
                    version_hash,
                    content: profile,
                }
                &&& b.manifest.eval_plan == BundleEvalPlan {
                    id: plan_id,
                    content_hash: plan_hash,
                    content: plan,
                }
                &&& b.digests == BundleDigests { profile: version_hash, eval_plan: plan_hash }
            },
    {
        let checked = check_content(
            &profile,
            &plan,
            computed_plan_hash,
            version_hash.as_str(),
            version_hash.as_str(),
            "profile version",
            plan_hash.as_str(),
            plan_hash.as_str(),
        );
        match checked {
            Err(e) => Err(e),
            Ok(()) => {
                let digests = BundleDigests {
                    profile: version_hash.clone(),
                    eval_plan: plan_hash.clone(),
                };
                Ok(
                    ExpertProfileBundle {
                        format: string_from(BUNDLE_FORMAT),
                        format_version: BUNDLE_FORMAT_VERSION,
                        manifest: BundleManifest {
                            schema_version: 1,
                            profile: BundleProfile { id: profile_id, version_hash, content: profile },
                            eval_plan: BundleEvalPlan { id: plan_id, content_hash: plan_hash, content: plan },
                        },
                        digests,
                    },
                )
            },
        }
    }

    /// Checks a bundle before anything of it is stored: the known format, a
    /// valid profile and plan, and digests that match in the manifest and in
    /// the digest block; `computed_plan_hash` is the digest of the plan.
    pub fn validate(&self, computed_plan_hash: &str) -> (r: Result<(), BundleError>)
        ensures
            (self.format@ != BUNDLE_FORMAT@ || self.format_version != BUNDLE_FORMAT_VERSION
                || self.manifest.schema_version != 1) ==> r == Err::<(), BundleError>(
                BundleError::UnsupportedFormat,
            ),
            !(self.format@ != BUNDLE_FORMAT@ || self.format_version != BUNDLE_FORMAT_VERSION
                || self.manifest.schema_version != 1) ==> content_outcome(
                self.manifest.profile.content,
                self.manifest.eval_plan.content,
                computed_plan_hash@,
                (self.manifest.profile.version_hash@, self.digests.profile@),
                "profile",
                (self.manifest.eval_plan.content_hash@, self.digests.eval_plan@),
                r,
            ),
    {
        if !str_eq(self.format.as_str(), BUNDLE_FORMAT) || self.format_version != BUNDLE_FORMAT_VERSION
            || self.manifest.schema_version != 1 {
            return Err(BundleError::UnsupportedFormat);
        }
        check_content(
            &self.manifest.profile.content,
            &self.manifest.eval_plan.content,
            computed_plan_hash,
            self.manifest.profile.version_hash.as_str(),
            self.digests.profile.as_str(),
            "profile",
            self.manifest.eval_plan.content_hash.as_str(),
            self.digests.eval_plan.as_str(),
        )
    }
}


/// What `validate` returns for a bundle checked against the digest of its
/// plan's content.
pub open spec fn bundle_check(b: ExpertProfileBundle, computed_plan_hash: Seq<char>, r: Result<(), BundleError>) -> bool {
    if b.format@ != BUNDLE_FORMAT@ || b.format_version != BUNDLE_FORMAT_VERSION || b.manifest.schema_version != 1 {
        r == Err::<(), BundleError>(BundleError::UnsupportedFormat)
    } else {
        content_outcome(
            b.manifest.profile.content,
            b.manifest.eval_plan.content,
            computed_plan_hash,
            (b.manifest.profile.version_hash@, b.digests.profile@),
            "profile",
            (b.manifest.eval_plan.content_hash@, b.digests.eval_plan@),
            r,
        )
    }
}

/// Readies a bundle for import: it is checked first, and when it is
/// imported as a clone every playbook gets a fresh id and every case points
/// at the new id of its playbook.  A restored bundle keeps its identity.
pub fn prepare_import(mut bundle: ExpertProfileBundle, computed_plan_hash: &str, mode: ImportIdentityMode) -> (r: Result<
    (ExpertProfileBundle, Vec<(u128, u128)>),
    BundleError,
>)
    ensures
        r matches Err(e) ==> bundle_check(bundle, computed_plan_hash@, Err(e)),
        r matches Ok((n, remap)) ==> {
            &&& bundle_check(bundle, computed_plan_hash@, Ok(()))
            &&& mode == ImportIdentityMode::Clone ==> remapped_bundle(bundle, n, remap@)
            &&& mode == ImportIdentityMode::RestoreIdentity ==> n == bundle && remap@.len() == 0
        },
{
    let ghost original = bundle;
    match bundle.validate(computed_plan_hash) {
        Err(e) => {
            return Err(e);
        },
        Ok(()) => {},
    }
    match mode {
        ImportIdentityMode::Clone => {
            proof {
                validation::lemma_valid_plan_references_playbooks(
                    bundle.manifest.eval_plan.content,
                    bundle.manifest.profile.content,
                );
            }
            let remap = remap_playbooks_for_clone(&mut bundle);
            Ok((bundle, remap))
        },
        ImportIdentityMode::RestoreIdentity => Ok((bundle, Vec::new())),
    }
}

/// A bundle that export built passes the import check: the format is the
/// known one, and with the same plan digest the content and digests agree,
/// so `validate` accepts it.
pub proof fn lemma_exported_bundle_validates(
    profile_id: u128,
    version_hash: String,
    profile: ExpertProfileVersion,
    plan_id: u128,
    plan_hash: String,
    plan: EvalPlan,
    computed_plan_hash: Seq<char>,
    b: ExpertProfileBundle,
    r: Result<(), BundleError>,
)
    requires
        content_outcome(
            profile,
            plan,
            computed_plan_hash,
            (version_hash@, version_hash@),
            "profile version",
            (plan_hash@, plan_hash@),
            Ok(()),
        ),
        b.format@ == BUNDLE_FORMAT@,
        b.format_version == BUNDLE_FORMAT_VERSION,
        b.manifest.schema_version == 1,
        b.manifest.profile == (BundleProfile { id: profile_id, version_hash, content: profile }),
        b.manifest.eval_plan == (BundleEvalPlan { id: plan_id, content_hash: plan_hash, content: plan }),
        b.digests == (BundleDigests { profile: version_hash, eval_plan: plan_hash }),
        content_outcome(
            b.manifest.profile.content,
            b.manifest.eval_plan.content,
            computed_plan_hash,
            (b.manifest.profile.version_hash@, b.digests.profile@),
            "profile",
            (b.manifest.eval_plan.content_hash@, b.digests.eval_plan@),
            r,
        ),
    ensures
        r is Ok,
{
}

// ----------------------------------------------------------------------------
// Import identities
// ----------------------------------------------------------------------------
/// The new id that the remapping gives an old playbook id: that of the last
/// pair for it, as a map filled in order keeps it.
pub open spec fn remapped(remap: Seq<(u128, u128)>, old: u128) -> Option<u128>
    decreases remap.len(),
{
    if remap.len() == 0 {
        None
    } else if remap.last().0 == old {
        Some(remap.last().1)
    } else {
        remapped(remap.drop_last(), old)
    }
}

/// `n` is case `c` pointed at the new id of its playbook.
pub open spec fn case_remapped(remap: Seq<(u128, u128)>, c: super::models::EvalCase, n: super::models::EvalCase) -> bool {
    &&& remapped(remap, c.playbook_id) is Some
    &&& n == (super::models::EvalCase { playbook_id: remapped(remap, c.playbook_id)->Some_0, ..c })
}

/// Every case of the plan names one of the profile's playbooks.
pub open spec fn cases_reference_playbooks(b: ExpertProfileBundle) -> bool {
    forall|i: int|
        0 <= i < b.manifest.eval_plan.content.cases@.len() ==> validation::first_playbook(
            b.manifest.profile.content.playbooks@,
            #[trigger] b.manifest.eval_plan.content.cases@[i].playbook_id,
            b.manifest.profile.content.playbooks@.len() as int,
        ) is Some
}

/// `n` is `b` with every playbook given the new id of its remapping pair
/// and every case pointed at the new id of its playbook.
pub open spec fn remapped_bundle(b: ExpertProfileBundle, n: ExpertProfileBundle, remap: Seq<(u128, u128)>) -> bool {
    let old_pbs = b.manifest.profile.content.playbooks@;
    let new_pbs = n.manifest.profile.content.playbooks@;
    let old_cases = b.manifest.eval_plan.content.cases@;
    let new_cases = n.manifest.eval_plan.content.cases@;
    &&& remap.len() == old_pbs.len()
    &&& new_pbs.len() == old_pbs.len()
    &&& forall|i: int|
        0 <= i < old_pbs.len() ==> #[trigger] remap[i].0 == old_pbs[i].id && new_pbs[i]
            == (MeetingPlaybook { id: remap[i].1, ..old_pbs[i] })
    &&& new_cases.len() == old_cases.len()
    &&& forall|i: int|
        0 <= i < old_cases.len() ==> case_remapped(remap, old_cases[i], #[trigger] new_cases[i])
    &&& n == ExpertProfileBundle {
        manifest: BundleManifest {
            profile: BundleProfile {
                content: ExpertProfileVersion {
                    playbooks: n.manifest.profile.content.playbooks,
                    ..b.manifest.profile.content
                },
                ..b.manifest.profile
            },
            eval_plan: BundleEvalPlan {
                content: EvalPlan {
                    cases: n.manifest.eval_plan.content.cases,
                    ..b.manifest.eval_plan.content
                },
                ..b.manifest.eval_plan
            },
            ..b.manifest
        },
        ..b
    }
}

proof fn lemma_remapped_found(remap: Seq<(u128, u128)>, k: int)
    requires
        0 <= k < remap.len(),
    ensures
        remapped(remap, remap[k].0) is Some,
    decreases remap.len(),
{
    if remap.last().0 != remap[k].0 {
        assert(k != remap.len() - 1);
        assert(remap.drop_last()[k] == remap[k]);
        lemma_remapped_found(remap.drop_last(), k);
    }
}

proof fn lemma_remapped_prefix(remap: Seq<(u128, u128)>, n: int, old: u128)
    requires
        0 <= n <= remap.len(),
        remapped(remap.subrange(0, n), old) is Some,
    ensures
        remapped(remap, old) is Some,
    decreases remap.len() - n,
{
    if n < remap.len() {
        let longer = remap.subrange(0, n + 1);
        assert(longer.drop_last() =~= remap.subrange(0, n));
        lemma_remapped_prefix(remap, n + 1, old);
    } else {
        assert(remap.subrange(0, n) =~= remap);
    }
}

fn lookup_remap(remap: &Vec<(u128, u128)>, old: u128) -> (r: Option<u128>)
    ensures
        r == remapped(remap@, old),
{
    let mut k: usize = remap.len();
    proof {
        assert(remap@.subrange(0, remap@.len() as int) =~= remap@);
    }
    while k > 0
        invariant
            0 <= k <= remap@.len(),
            remapped(remap@, old) == remapped(remap@.subrange(0, k as int), old),
        decreases k,
    {
        let ghost prefix = remap@.subrange(0, k as int);
        proof {
            assert(prefix.drop_last() =~= remap@.subrange(0, k - 1));
            assert(prefix.last() == remap@[k - 1]);
        }
        if remap[k - 1].0 == old {
            return Some(remap[k - 1].1);
        }
        k -= 1;
    }
    proof {
        assert(remap@.subrange(0, 0) =~= Seq::<(u128, u128)>::empty());
    }
    None
}

/// Gives every playbook of a bundle a fresh random id and points every case
/// at the new id of its playbook; returns each old id with its new one.
#[verifier::spinoff_prover]
pub fn remap_playbooks_for_clone(bundle: &mut ExpertProfileBundle) -> (remap: Vec<(u128, u128)>)
    requires
        cases_reference_playbooks(*old(bundle)),
    ensures
        remapped_bundle(*old(bundle), *final(bundle), remap@),
{
    let ghost original = *bundle;
    let mut remap: Vec<(u128, u128)> = Vec::new();
    let mut pbs: Vec<MeetingPlaybook> = Vec::new();
    std::mem::swap(&mut pbs, &mut bundle.manifest.profile.content.playbooks);
    let ghost old_pbs = pbs@;
    let mut i: usize = 0;
    while i < pbs.len()
        invariant
            old_pbs == original.manifest.profile.content.playbooks@,
            pbs@.len() == old_pbs.len(),
            0 <= i <= old_pbs.len(),
            remap@.len() == i,
            forall|k: int|
                0 <= k < i ==> #[trigger] remap@[k].0 == old_pbs[k].id && pbs@[k]
                    == (MeetingPlaybook { id: remap@[k].1, ..old_pbs[k] }),
            forall|k: int| i <= k < old_pbs.len() ==> #[trigger] pbs@[k] == old_pbs[k],
        decreases old_pbs.len() - i,
    {
        let new_id = ids::random_id();
        let mut pb = pbs.remove(i);
        let old_id = pb.id;
        pb.id = new_id;
        pbs.insert(i, pb);
        remap.push((old_id, new_id));
        i += 1;
    }
    std::mem::swap(&mut pbs, &mut bundle.manifest.profile.content.playbooks);
    let ghost old_cases = original.manifest.eval_plan.content.cases@;
    let mut cases: Vec<super::models::EvalCase> = Vec::new();
    std::mem::swap(&mut cases, &mut bundle.manifest.eval_plan.content.cases);
    let mut j: usize = 0;
    while j < cases.len()
        invariant
            old_cases == original.manifest.eval_plan.content.cases@,
            cases@.len() == old_cases.len(),
            0 <= j <= old_cases.len(),
            remap@.len() == old_pbs.len(),
            forall|k: int| 0 <= k < old_pbs.len() ==> #[trigger] remap@[k].0 == old_pbs[k].id,
            forall|k: int|
                0 <= k < old_cases.len() ==> validation::first_playbook(
                    old_pbs,
                    #[trigger] old_cases[k].playbook_id,
                    old_pbs.len() as int,
                ) is Some,
            forall|k: int| 0 <= k < j ==> case_remapped(remap@, old_cases[k], #[trigger] cases@[k]),
            forall|k: int| j <= k < old_cases.len() ==> #[trigger] cases@[k] == old_cases[k],
        decreases old_cases.len() - j,
    {
        proof {
            let p = validation::first_playbook(
                old_pbs,
                old_cases[j as int].playbook_id,
                old_pbs.len() as int,
            )->Some_0;
            validation::lemma_first_playbook_bounds(
                old_pbs,
                old_cases[j as int].playbook_id,
                old_pbs.len() as int,
            );
            lemma_remapped_found(remap@, p);
        }
        let new_id = match lookup_remap(&remap, cases[j].playbook_id) {
            Some(id) => id,
            None => {
                proof {
                    assert(false);
                }
                cases[j].playbook_id
            },
        };
        let ghost before = cases@;
        let mut c = cases.remove(j);
        c.playbook_id = new_id;
        cases.insert(j, c);
        proof {
            assert(cases@ =~= before.update(j as int, c));
            assert(before[j as int] == old_cases[j as int]);
            assert(remapped(remap@, old_cases[j as int].playbook_id) == Some(new_id));
            assert(c == (super::models::EvalCase { playbook_id: new_id, ..old_cases[j as int] }));
            assert forall|k: int| 0 <= k < j + 1 implies case_remapped(
                remap@,
                old_cases[k],
                #[trigger] cases@[k],
            ) by {
                if k < j {
                    assert(cases@[k] == before[k]);
                }
            }
        }
        j += 1;
    }
    std::mem::swap(&mut cases, &mut bundle.manifest.eval_plan.content.cases);
    remap
}

/// Restoring a bundle's identity is refused when a local profile already
/// has that id.
pub fn check_restore_identity(bundle: &ExpertProfileBundle, existing_profile_ids: &Vec<String>) -> (r:
    Result<(u128, u128), BundleError>)
    ensures
        (exists|i: int|
            0 <= i < existing_profile_ids@.len() && #[trigger] existing_profile_ids@[i]@
                == canonical::uuid_text(bundle.manifest.profile.id)) ==> r == Err::<
            (u128, u128),
            BundleError,
        >(BundleError::IdentityConflict),
        !(exists|i: int|
            0 <= i < existing_profile_ids@.len() && #[trigger] existing_profile_ids@[i]@
                == canonical::uuid_text(bundle.manifest.profile.id)) ==> r == Ok::<
            (u128, u128),
            BundleError,
        >((bundle.manifest.profile.id, bundle.manifest.eval_plan.id)),
{
    let id = uuid_string(bundle.manifest.profile.id);
    let mut i: usize = 0;
    while i < existing_profile_ids.len()
        invariant
            0 <= i <= existing_profile_ids@.len(),
            id@ == canonical::uuid_text(bundle.manifest.profile.id),
            forall|k: int| 0 <= k < i ==> #[trigger] existing_profile_ids@[k]@ != id@,
        decreases existing_profile_ids.len() - i,
    {
        if str_eq(existing_profile_ids[i].as_str(), id.as_str()) {
            return Err(BundleError::IdentityConflict);
        }
        i += 1;
    }
    Ok((bundle.manifest.profile.id, bundle.manifest.eval_plan.id))
}

} // verus!
