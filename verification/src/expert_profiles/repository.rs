//! The rules of the expert-profile store: immutable versions and plans,
//! integrity of what is read back, and the activation record of a profile,
//! which only a qualifying evaluation under unchanged inputs may set.  The
//! queries run outside the library; each step decides on what they returned.
use vstd::prelude::*;

use crate::canonical;
use crate::canonical::write_uuid_text;
use crate::text::{str_eq, string_from};

use super::hashing;
use super::hashing::{hash_profile_version, prompt_renderer_hash, HashError};
use super::models::{EvalPlan, ExpertProfileVersion};
use super::rendering::OUTPUT_PARSER_VERSION;
use super::safety_gate::SAFETY_GATE_VERSION;
use super::validation;
use super::validation::{Validate, ValidationErrors};

verus! {

/// The expert-profile store; its operations are the steps below.
pub struct ExpertProfilesRepository;

#[derive(Debug, Clone, PartialEq, Eq)]
pub enum ExpertProfileRepositoryError {
    Validation(ValidationErrors),
    Hash(HashError),
    /// A failure of the database or of reading stored JSON, with its message.
    Database(String),
    ProfileNotFound(u128),
    VersionNotFound { profile_id: u128, version_hash: String },
    EvalPlanNotFound { plan_id: u128, content_hash: String },
    StoredContentIntegrity { kind: &'static str },
    EvalRunNotFound(i64),
    EvalRunNotQualifying { eval_run_id: i64, outcome: String },
    ActivationInputChanged(String),
    BindingSuperseded(String),
    ProfileActive,
}

#[derive(Debug, Clone, PartialEq, Eq)]
pub struct ExpertProfileSummary {
    pub id: String,
    pub name: String,
    pub retired_at: Option<String>,
    pub created_at: String,
    pub updated_at: String,
}

#[derive(Debug, Clone, PartialEq, Eq)]
pub struct StoredProfileVersion {
    pub profile_id: String,
    pub version_hash: String,
    pub seq: i64,
    pub schema_version: i64,
    pub created_at: String,
}

#[derive(Debug, Clone, PartialEq, Eq)]
pub struct StoredEvalPlan {
    pub id: String,
    pub profile_id: String,
    pub content_hash: String,
    pub schema_version: i64,
    pub created_at: String,
}

#[derive(Debug, Clone, PartialEq, Eq)]
pub struct StoredEvalRun {
    pub id: i64,
    pub profile_id: String,
    pub candidate_capability_hash: String,
    pub baseline_capability_hash: Option<String>,
    pub eval_plan_hash: String,
    pub safety_gate_version: String,
    pub model_binding_hash: String,
    pub outcome: String,
    pub created_at: String,
}

#[derive(Debug, Clone, PartialEq, Eq)]
pub struct StoredProfileActivation {
    pub profile_id: String,
    pub profile_version_hash: String,
    pub capability_revision_hash: String,
    pub eval_run_id: i64,
    pub status: String,
    pub superseded_reason: Option<String>,
    pub activated_at: String,
}

/// The columns of a stored evaluation run that activation reads.
#[derive(Debug, Clone, PartialEq, Eq)]
pub struct EvalRunRecord {
    pub candidate_capability_hash: String,
    pub eval_plan_hash: String,
    pub safety_gate_version: String,
    pub model_binding_hash: String,
    pub outcome: String,
}

/// The digests of a stored evaluation report that activation reads.
#[derive(Debug, Clone, PartialEq, Eq)]
pub struct ReportDigests {
    pub candidate_profile_version_hash: String,
    pub candidate_capability_hash: String,
    pub eval_plan_hash: String,
    pub model_binding_hash: String,
    pub safety_gate_version: String,
}

/// What activation reads of the model binding in use now: its digest, and
/// the renderer and parser it names.
#[derive(Debug, Clone, PartialEq, Eq)]
pub struct BindingFacts {
    pub binding_hash: String,
    pub prompt_renderer_hash: String,
    pub output_parser_version: u32,
}

/// One line of the activation journal.
#[derive(Debug, Clone, PartialEq, Eq)]
pub struct ActivationJournalEntry {
    pub capability_revision_hash: String,
    pub previous_capability_hash: Option<String>,
    pub eval_run_id: Option<i64>,
    pub action: &'static str,
}

/// A signed integer in decimal.
pub open spec fn signed_text(n: i64) -> Seq<char> {
    if n < 0 {
        "-"@ + canonical::decimal((-(n as int)) as nat)
    } else {
        canonical::decimal(n as nat)
    }
}

impl ExpertProfileRepositoryError {
    pub open spec fn spec_message(&self) -> Seq<char> {
        match self {
            ExpertProfileRepositoryError::Validation(_) => "expert profile validation failed"@,
            ExpertProfileRepositoryError::Hash(e) => e.spec_message(),
            ExpertProfileRepositoryError::Database(m) => m@,
            ExpertProfileRepositoryError::ProfileNotFound(id) => "expert profile "@
                + canonical::uuid_text(*id) + " was not found"@,
            ExpertProfileRepositoryError::VersionNotFound { profile_id, version_hash } =>
                "expert profile version "@ + version_hash@ + " was not found for "@
                + canonical::uuid_text(*profile_id),
            ExpertProfileRepositoryError::EvalPlanNotFound { plan_id, content_hash } =>
                "expert evaluation plan "@ + canonical::uuid_text(*plan_id) + " with hash "@
                + content_hash@ + " was not found"@,
            ExpertProfileRepositoryError::StoredContentIntegrity { kind } => "stored "@ + kind@
                + " content does not match its recorded digest"@,
            ExpertProfileRepositoryError::EvalRunNotFound(id) => "evaluation run "@ + signed_text(*id)
                + " was not found"@,
            ExpertProfileRepositoryError::EvalRunNotQualifying { eval_run_id, outcome } =>
                "evaluation run "@ + signed_text(*eval_run_id) + " has non-qualifying outcome "@
                + outcome@,
            ExpertProfileRepositoryError::ActivationInputChanged(m) => "ACTIVATION_INPUT_CHANGED: "@
                + m@,
            ExpertProfileRepositoryError::BindingSuperseded(m) => "BINDING_SUPERSEDED: "@ + m@,
            ExpertProfileRepositoryError::ProfileActive =>
                "PROFILE_ACTIVE: deactivate or retire the profile before deletion"@,
        }
    }

    /// The human-readable message of the error.
    pub fn message(&self) -> (r: String)
        ensures
            r@ == self.spec_message(),
    {
        let mut out = String::new();
        match self {
            ExpertProfileRepositoryError::Validation(e) => {
                crate::text::push_str(&mut out, e.message());
            },
            ExpertProfileRepositoryError::Hash(e) => {
                out = e.message();
            },
            ExpertProfileRepositoryError::Database(m) => {
                crate::text::push_str(&mut out, m.as_str());
            },
            ExpertProfileRepositoryError::ProfileNotFound(id) => {
                crate::text::push_str(&mut out, "expert profile ");
                write_uuid_text(&mut out, *id);
                crate::text::push_str(&mut out, " was not found");
            },
            ExpertProfileRepositoryError::VersionNotFound { profile_id, version_hash } => {
                crate::text::push_str(&mut out, "expert profile version ");
                crate::text::push_str(&mut out, version_hash.as_str());
                crate::text::push_str(&mut out, " was not found for ");
                write_uuid_text(&mut out, *profile_id);
            },
            ExpertProfileRepositoryError::EvalPlanNotFound { plan_id, content_hash } => {
                crate::text::push_str(&mut out, "expert evaluation plan ");
                write_uuid_text(&mut out, *plan_id);
                crate::text::push_str(&mut out, " with hash ");
                crate::text::push_str(&mut out, content_hash.as_str());
                crate::text::push_str(&mut out, " was not found");
            },
            ExpertProfileRepositoryError::StoredContentIntegrity { kind } => {
                crate::text::push_str(&mut out, "stored ");
                crate::text::push_str(&mut out, kind);
                crate::text::push_str(&mut out, " content does not match its recorded digest");
            },
            ExpertProfileRepositoryError::EvalRunNotFound(id) => {
                crate::text::push_str(&mut out, "evaluation run ");
                write_signed(&mut out, *id);
                crate::text::push_str(&mut out, " was not found");
            },
            ExpertProfileRepositoryError::EvalRunNotQualifying { eval_run_id, outcome } => {
                crate::text::push_str(&mut out, "evaluation run ");
                write_signed(&mut out, *eval_run_id);
                crate::text::push_str(&mut out, " has non-qualifying outcome ");
                crate::text::push_str(&mut out, outcome.as_str());
            },
            ExpertProfileRepositoryError::ActivationInputChanged(m) => {
                crate::text::push_str(&mut out, "ACTIVATION_INPUT_CHANGED: ");
                crate::text::push_str(&mut out, m.as_str());
            },
            ExpertProfileRepositoryError::BindingSuperseded(m) => {
                crate::text::push_str(&mut out, "BINDING_SUPERSEDED: ");
                crate::text::push_str(&mut out, m.as_str());
            },
            ExpertProfileRepositoryError::ProfileActive => {
                crate::text::push_str(
                    &mut out,
                    "PROFILE_ACTIVE: deactivate or retire the profile before deletion",
                );
            },
        }
        proof {
            assert(out@ =~= self.spec_message());
        }
        out
    }
}

/// Appends a signed integer in decimal.
fn write_signed(out: &mut String, n: i64)
    ensures
        final(out)@ == old(out)@ + signed_text(n),
{
    let ghost start = out@;
    if n < 0 {
        crate::text::push_char(out, '-');
        let magnitude: u64 = if n == i64::MIN {
            0x8000_0000_0000_0000u64
        } else {
            (-n) as u64
        };
        assert(magnitude as int == -(n as int));
        canonical::write_decimal(out, magnitude);
        proof {
            reveal_strlit("-");
            assert(out@ =~= start + signed_text(n));
        }
    } else {
        canonical::write_decimal(out, n as u64);
    }
}

/// The validation errors carried by a result, as issues, when it is a
/// validation failure.
pub open spec fn validation_failure<T>(r: Result<T, ExpertProfileRepositoryError>, issues: Seq<
    validation::Issue,
>) -> bool {
    &&& issues.len() > 0
    &&& r matches Err(ExpertProfileRepositoryError::Validation(e))
    &&& validation::issues_view(e.0@) == issues
}

fn uuid_string(id: u128) -> (r: String)
    ensures
        r@ == canonical::uuid_text(id),
{
    let mut out = String::new();
    write_uuid_text(&mut out, id);
    proof {
        assert(out@ =~= canonical::uuid_text(id));
    }
    out
}

fn validated(r: Result<(), ValidationErrors>) -> (out: Result<(), ExpertProfileRepositoryError>)
    ensures
        match r {
            Ok(()) => out is Ok,
            Err(e) => out == Err::<(), ExpertProfileRepositoryError>(
                ExpertProfileRepositoryError::Validation(e),
            ),
        },
{
    match r {
        Ok(()) => Ok(()),
        Err(e) => Err(ExpertProfileRepositoryError::Validation(e)),
    }
}

/// A stored activation still in force.
pub open spec fn is_active(a: StoredProfileActivation) -> bool {
    a.status@ == "active"@
}

impl ExpertProfilesRepository {
    /// Validates a profile and computes the digest it is stored under.
    pub fn profile_version_digest(profile: &ExpertProfileVersion) -> (r: Result<
        String,
        ExpertProfileRepositoryError,
    >)
        ensures
            validation::profile_issues(*profile).len() > 0 ==> validation_failure(
                r,
                validation::profile_issues(*profile),
            ),
            validation::profile_issues(*profile).len() == 0 ==> (r matches Ok(h) && h@
                == hashing::profile_digest(*profile)),
    {
        validated(profile.validate())?;
        match hash_profile_version(profile) {
            Ok(h) => Ok(h),
            Err(e) => Err(ExpertProfileRepositoryError::Hash(e)),
        }
    }

    /// Validates a new profile together with its evaluation plan and
    /// computes the profile's digest.
    pub fn profile_with_plan_digest(profile: &ExpertProfileVersion, plan: &EvalPlan) -> (r: Result<
        String,
        ExpertProfileRepositoryError,
    >)
        ensures
            validation::profile_issues(*profile).len() > 0 ==> validation_failure(
                r,
                validation::profile_issues(*profile),
            ),
            validation::profile_issues(*profile).len() == 0 && validation::plan_for_profile_issues(
                *plan,
                *profile,
            ).len() > 0 ==> validation_failure(
                r,
                validation::plan_for_profile_issues(*plan, *profile),
            ),
            validation::profile_issues(*profile).len() == 0 && validation::plan_for_profile_issues(
                *plan,
                *profile,
            ).len() == 0 ==> (r matches Ok(h) && h@ == hashing::profile_digest(*profile)),
    {
        validated(profile.validate())?;
        validated(plan.validate_for_profile(profile))?;
        match hash_profile_version(profile) {
            Ok(h) => Ok(h),
            Err(e) => Err(ExpertProfileRepositoryError::Hash(e)),
        }
    }

    /// Checks a profile read back from the store: it must be valid and hash
    /// to the digest it was stored under.
    pub fn check_stored_profile(profile: &ExpertProfileVersion, version_hash: &str) -> (r: Result<
        (),
        ExpertProfileRepositoryError,
    >)
        ensures
            validation::profile_issues(*profile).len() > 0 ==> validation_failure(
                r,
                validation::profile_issues(*profile),
            ),
            validation::profile_issues(*profile).len() == 0 ==> if hashing::profile_digest(*profile)
                == version_hash@ {
                r is Ok
            } else {
                r == Err::<(), ExpertProfileRepositoryError>(
                    ExpertProfileRepositoryError::StoredContentIntegrity { kind: "expert profile" },
                )
            },
    {
        validated(profile.validate())?;
        let digest = match hash_profile_version(profile) {
            Ok(h) => h,
            Err(e) => {
                return Err(ExpertProfileRepositoryError::Hash(e));
            },
        };
        if !str_eq(digest.as_str(), version_hash) {
            return Err(ExpertProfileRepositoryError::StoredContentIntegrity { kind: "expert profile" });
        }
        Ok(())
    }

    /// Checks an evaluation plan read back from the store against the
    /// digest it was stored under, given the digest of its content.
    pub fn check_stored_plan(plan: &EvalPlan, computed_hash: &str, content_hash: &str) -> (r: Result<
        (),
        ExpertProfileRepositoryError,
    >)
        ensures
            validation::plan_issues(*plan).len() > 0 ==> validation_failure(
                r,
                validation::plan_issues(*plan),
            ),
            validation::plan_issues(*plan).len() == 0 ==> if computed_hash@ == content_hash@ {
                r is Ok
            } else {
                r == Err::<(), ExpertProfileRepositoryError>(
                    ExpertProfileRepositoryError::StoredContentIntegrity {
                        kind: "expert evaluation plan",
                    },
                )
            },
    {
        validated(plan.validate())?;
        if !str_eq(computed_hash, content_hash) {
            return Err(
                ExpertProfileRepositoryError::StoredContentIntegrity {
                    kind: "expert evaluation plan",
                },
            );
        }
        Ok(())
    }

    /// Decides on saving a profile version: the profile must exist; saving
    /// content already stored returns that version unchanged; otherwise a new
    /// version (to be inserted, `true`) takes the next sequence number.
    pub fn reconcile_profile_version(
        profile_exists: bool,
        existing: Option<StoredProfileVersion>,
        profile_id: u128,
        next_sequence: i64,
        version_hash: String,
        schema_version: u32,
        now: String,
    ) -> (r: Result<(StoredProfileVersion, bool), ExpertProfileRepositoryError>)
        ensures
            !profile_exists ==> r == Err::<(StoredProfileVersion, bool), ExpertProfileRepositoryError>(
                ExpertProfileRepositoryError::ProfileNotFound(profile_id),
            ),
            profile_exists ==> match existing {
                Some(e) => r == Ok::<(StoredProfileVersion, bool), ExpertProfileRepositoryError>(
                    (e, false),
                ),
                None => r matches Ok((v, true)) && v.profile_id@ == canonical::uuid_text(profile_id)
                    && v.version_hash == version_hash && v.seq == next_sequence && v.schema_version
                    == schema_version as i64 && v.created_at == now,
            },
    {
        if !profile_exists {
            return Err(ExpertProfileRepositoryError::ProfileNotFound(profile_id));
        }
        match existing {
            Some(e) => Ok((e, false)),
            None => Ok(
                (
                    StoredProfileVersion {
                        profile_id: uuid_string(profile_id),
                        version_hash,
                        seq: next_sequence,
                        schema_version: schema_version as i64,
                        created_at: now,
                    },
                    true,
                ),
            ),
        }
    }

    /// An evaluation report may only be stored for the profile it evaluated.
    pub fn check_report_profile(report_profile_id: u128, profile_id: u128) -> (r: Result<
        (),
        ExpertProfileRepositoryError,
    >)
        ensures
            report_profile_id == profile_id <==> r is Ok,
            r is Err ==> (r matches Err(ExpertProfileRepositoryError::ActivationInputChanged(m))
                && m@ == "evaluation report profile identity does not match the target profile"@),
    {
        if report_profile_id != profile_id {
            return Err(
                ExpertProfileRepositoryError::ActivationInputChanged(
                    string_from("evaluation report profile identity does not match the target profile"),
                ),
            );
        }
        Ok(())
    }

    /// The first step of activation: the run must exist for this profile and
    /// have passed, or have had no baseline to compare with.
    pub fn check_eval_run(eval_run_id: i64, run: Option<EvalRunRecord>) -> (r: Result<
        EvalRunRecord,
        ExpertProfileRepositoryError,
    >)
        ensures
            match run {
                None => r == Err::<EvalRunRecord, ExpertProfileRepositoryError>(
                    ExpertProfileRepositoryError::EvalRunNotFound(eval_run_id),
                ),
                Some(x) => if x.outcome@ == "pass"@ || x.outcome@ == "baseline_missing"@ {
                    r == Ok::<EvalRunRecord, ExpertProfileRepositoryError>(x)
                } else {
                    r == Err::<EvalRunRecord, ExpertProfileRepositoryError>(
                        ExpertProfileRepositoryError::EvalRunNotQualifying {
                            eval_run_id,
                            outcome: x.outcome,
                        },
                    )
                },
            },
    {
        let x = match run {
            Some(x) => x,
            None => {
                return Err(ExpertProfileRepositoryError::EvalRunNotFound(eval_run_id));
            },
        };
        if !str_eq(x.outcome.as_str(), "pass") && !str_eq(x.outcome.as_str(), "baseline_missing") {
            return Err(
                ExpertProfileRepositoryError::EvalRunNotQualifying { eval_run_id, outcome: x.outcome },
            );
        }
        Ok(x)
    }

    /// The second step of activation: the stored report must agree with its
    /// run, the model binding must be the one evaluated, and the renderer,
    /// parser and safety gate must be those of this build.
    pub fn check_report_and_binding(run: &EvalRunRecord, report: &ReportDigests, binding: &BindingFacts) -> (r:
        Result<(), ExpertProfileRepositoryError>)
        ensures
            ({
                let integrity = report.candidate_capability_hash@ == run.candidate_capability_hash@
                    && report.eval_plan_hash@ == run.eval_plan_hash@ && report.model_binding_hash@
                    == run.model_binding_hash@ && report.safety_gate_version@
                    == run.safety_gate_version@;
                let same_binding = run.model_binding_hash@ == binding.binding_hash@;
                let same_build = binding.prompt_renderer_hash@ == hashing::prompt_renderer_digest()
                    && binding.output_parser_version == OUTPUT_PARSER_VERSION
                    && run.safety_gate_version@ == SAFETY_GATE_VERSION@;
                &&& !integrity ==> r == Err::<(), ExpertProfileRepositoryError>(
                    ExpertProfileRepositoryError::StoredContentIntegrity {
                        kind: "expert evaluation report",
                    },
                )
                &&& integrity && !same_binding ==> (r matches Err(
                    ExpertProfileRepositoryError::ActivationInputChanged(m),
                ) && m@ == "model binding changed after evaluation"@)
                &&& integrity && same_binding && !same_build ==> (r matches Err(
                    ExpertProfileRepositoryError::ActivationInputChanged(m),
                ) && m@
                    == "renderer, parser, or application safety gate changed after evaluation"@)
                &&& integrity && same_binding && same_build ==> r is Ok
            }),
    {
        if !str_eq(report.candidate_capability_hash.as_str(), run.candidate_capability_hash.as_str())
            || !str_eq(report.eval_plan_hash.as_str(), run.eval_plan_hash.as_str()) || !str_eq(
            report.model_binding_hash.as_str(),
            run.model_binding_hash.as_str(),
        ) || !str_eq(report.safety_gate_version.as_str(), run.safety_gate_version.as_str()) {
            return Err(
                ExpertProfileRepositoryError::StoredContentIntegrity {
                    kind: "expert evaluation report",
                },
            );
        }
        if !str_eq(run.model_binding_hash.as_str(), binding.binding_hash.as_str()) {
            return Err(
                ExpertProfileRepositoryError::ActivationInputChanged(
                    string_from("model binding changed after evaluation"),
                ),
            );
        }
        let renderer = prompt_renderer_hash();
        if !str_eq(binding.prompt_renderer_hash.as_str(), renderer.as_str())
            || binding.output_parser_version != OUTPUT_PARSER_VERSION || !str_eq(
            run.safety_gate_version.as_str(),
            SAFETY_GATE_VERSION,
        ) {
            return Err(
                ExpertProfileRepositoryError::ActivationInputChanged(
                    string_from(
                        "renderer, parser, or application safety gate changed after evaluation",
                    ),
                ),
            );
        }
        Ok(())
    }

    /// The third step of activation: the evaluated version and plan must
    /// still be stored.
    pub fn check_inputs_available(version_exists: bool, plan_exists: bool) -> (r: Result<
        (),
        ExpertProfileRepositoryError,
    >)
        ensures
            version_exists && plan_exists ==> r is Ok,
            !(version_exists && plan_exists) ==> (r matches Err(
                ExpertProfileRepositoryError::ActivationInputChanged(m),
            ) && m@ == "evaluated profile version or evaluation plan is no longer available"@),
    {
        if !version_exists || !plan_exists {
            return Err(
                ExpertProfileRepositoryError::ActivationInputChanged(
                    string_from("evaluated profile version or evaluation plan is no longer available"),
                ),
            );
        }
        Ok(())
    }

    /// The fourth step of activation: the capability active now must be the
    /// one the caller saw before evaluating (none, when none was active).
    pub fn check_expected_previous(
        current: Option<&StoredProfileActivation>,
        expected_previous_capability_hash: Option<&str>,
    ) -> (r: Result<(), ExpertProfileRepositoryError>)
        ensures
            ({
                let same = match (current, expected_previous_capability_hash) {
                    (Some(c), Some(e)) => c.capability_revision_hash@ == e@,
                    (None, None) => true,
                    _ => false,
                };
                &&& same ==> r is Ok
                &&& !same ==> (r matches Err(
                    ExpertProfileRepositoryError::ActivationInputChanged(m),
                ) && m@ == "active capability changed while evaluation was running"@)
            }),
    {
        let same = match (current, expected_previous_capability_hash) {
            (Some(c), Some(e)) => str_eq(c.capability_revision_hash.as_str(), e),
            (None, None) => true,
            _ => false,
        };
        if !same {
            return Err(
                ExpertProfileRepositoryError::ActivationInputChanged(
                    string_from("active capability changed while evaluation was running"),
                ),
            );
        }
        Ok(())
    }

    /// The last step of activation: the journal lines to write (the previous
    /// activation superseded, then the new one) and the new activation record.
    pub fn activation_outcome(
        profile_id: u128,
        current: Option<&StoredProfileActivation>,
        run: &EvalRunRecord,
        report: &ReportDigests,
        eval_run_id: i64,
        now: String,
    ) -> (r: (Vec<ActivationJournalEntry>, StoredProfileActivation))
        ensures
            r.1.profile_id@ == canonical::uuid_text(profile_id),
            r.1.profile_version_hash == report.candidate_profile_version_hash,
            r.1.capability_revision_hash == run.candidate_capability_hash,
            r.1.eval_run_id == eval_run_id,
            is_active(r.1),
            r.1.superseded_reason is None,
            r.1.activated_at == now,
            match current {
                Some(c) => r.0@.len() == 2 && r.0@[0] == ActivationJournalEntry {
                    capability_revision_hash: c.capability_revision_hash,
                    previous_capability_hash: Some(c.capability_revision_hash),
                    eval_run_id: Some(c.eval_run_id),
                    action: "supersede",
                } && r.0@[1] == ActivationJournalEntry {
                    capability_revision_hash: run.candidate_capability_hash,
                    previous_capability_hash: Some(c.capability_revision_hash),
                    eval_run_id: Some(eval_run_id),
                    action: "activate",
                },
                None => r.0@.len() == 1 && r.0@[0] == ActivationJournalEntry {
                    capability_revision_hash: run.candidate_capability_hash,
                    previous_capability_hash: None,
                    eval_run_id: Some(eval_run_id),
                    action: "activate",
                },
            },
    {
        let mut journal: Vec<ActivationJournalEntry> = Vec::new();
        let previous = match current {
            Some(c) => {
                journal.push(
                    ActivationJournalEntry {
                        capability_revision_hash: c.capability_revision_hash.clone(),
                        previous_capability_hash: Some(c.capability_revision_hash.clone()),
                        eval_run_id: Some(c.eval_run_id),
                        action: "supersede",
                    },
                );
                Some(c.capability_revision_hash.clone())
            },
            None => None,
        };
        journal.push(
            ActivationJournalEntry {
                capability_revision_hash: run.candidate_capability_hash.clone(),
                previous_capability_hash: previous,
                eval_run_id: Some(eval_run_id),
                action: "activate",
            },
        );
        let activation = StoredProfileActivation {
            profile_id: uuid_string(profile_id),
            profile_version_hash: report.candidate_profile_version_hash.clone(),
            capability_revision_hash: run.candidate_capability_hash.clone(),
            eval_run_id,
            status: string_from("active"),
            superseded_reason: None,
            activated_at: now,
        };
        (journal, activation)
    }

    /// Marks an activation superseded for a reason, with the journal line to
    /// write; marking it again for the same reason changes nothing.
    pub fn supersede(current: Option<StoredProfileActivation>, reason: &str) -> (r: (
        Option<StoredProfileActivation>,
        Option<ActivationJournalEntry>,
    ))
        ensures
            match current {
                None => r.0 is None && r.1 is None,
                Some(c) => if c.status@ == "superseded"@ && canonical::opt_view(c.superseded_reason)
                    == Some(reason@) {
                    r.0 == Some(c) && r.1 is None
                } else {
                    r.0 matches Some(n) && n.status@ == "superseded"@ && canonical::opt_view(
                        n.superseded_reason,
                    ) == Some(reason@) && n == StoredProfileActivation {
                        status: n.status,
                        superseded_reason: n.superseded_reason,
                        ..c
                    } && r.1 == Some(
                        ActivationJournalEntry {
                            capability_revision_hash: c.capability_revision_hash,
                            previous_capability_hash: Some(c.capability_revision_hash),
                            eval_run_id: Some(c.eval_run_id),
                            action: "supersede",
                        },
                    )
                },
            },
    {
        let mut c = match current {
            Some(c) => c,
            None => {
                return (None, None);
            },
        };
        let same_reason = match &c.superseded_reason {
            Some(s) => str_eq(s.as_str(), reason),
            None => false,
        };
        if str_eq(c.status.as_str(), "superseded") && same_reason {
            return (Some(c), None);
        }
        let entry = ActivationJournalEntry {
            capability_revision_hash: c.capability_revision_hash.clone(),
            previous_capability_hash: Some(c.capability_revision_hash.clone()),
            eval_run_id: Some(c.eval_run_id),
            action: "supersede",
        };
        c.status = string_from("superseded");
        c.superseded_reason = Some(string_from(reason));
        (Some(c), Some(entry))
    }

    /// A generation may use a profile only while its activation is in force.
    pub fn require_active(profile_id: u128, activation: Option<StoredProfileActivation>) -> (r: Result<
        StoredProfileActivation,
        ExpertProfileRepositoryError,
    >)
        ensures
            match activation {
                None => r == Err::<StoredProfileActivation, ExpertProfileRepositoryError>(
                    ExpertProfileRepositoryError::ProfileNotFound(profile_id),
                ),
                Some(a) => if is_active(a) {
                    r == Ok::<StoredProfileActivation, ExpertProfileRepositoryError>(a)
                } else {
                    r matches Err(ExpertProfileRepositoryError::BindingSuperseded(m)) && m@ == match a.superseded_reason {
                        Some(s) => s@,
                        None => "profile requires re-evaluation"@,
                    }
                },
            },
    {
        let a = match activation {
            Some(a) => a,
            None => {
                return Err(ExpertProfileRepositoryError::ProfileNotFound(profile_id));
            },
        };
        if !str_eq(a.status.as_str(), "active") {
            let reason = match a.superseded_reason {
                Some(s) => s,
                None => string_from("profile requires re-evaluation"),
            };
            return Err(ExpertProfileRepositoryError::BindingSuperseded(reason));
        }
        Ok(a)
    }

    /// An active profile keeps its binding only while the binding in use has
    /// the digest of the one it was activated with.
    pub fn check_binding_unchanged(stored_binding_hash: &str, current_binding_hash: &str) -> (r:
        Result<(), ExpertProfileRepositoryError>)
        ensures
            stored_binding_hash@ == current_binding_hash@ ==> r is Ok,
            stored_binding_hash@ != current_binding_hash@ ==> (r matches Err(
                ExpertProfileRepositoryError::BindingSuperseded(m),
            ) && m@ == "provider, model, endpoint, parameters, renderer, or parser changed"@),
    {
        if !str_eq(stored_binding_hash, current_binding_hash) {
            return Err(
                ExpertProfileRepositoryError::BindingSuperseded(
                    string_from("provider, model, endpoint, parameters, renderer, or parser changed"),
                ),
            );
        }
        Ok(())
    }

    /// Retiring a profile: it must exist; an activation in force is journaled
    /// as retired and removed.
    pub fn retirement(profile_id: u128, exists: bool, activation: Option<&StoredProfileActivation>) -> (r:
        Result<Option<ActivationJournalEntry>, ExpertProfileRepositoryError>)
        ensures
            !exists ==> r == Err::<Option<ActivationJournalEntry>, ExpertProfileRepositoryError>(
                ExpertProfileRepositoryError::ProfileNotFound(profile_id),
            ),
            exists ==> match activation {
                None => r == Ok::<Option<ActivationJournalEntry>, ExpertProfileRepositoryError>(
                    None,
                ),
                Some(a) => r == Ok::<Option<ActivationJournalEntry>, ExpertProfileRepositoryError>(
                    Some(
                        ActivationJournalEntry {
                            capability_revision_hash: a.capability_revision_hash,
                            previous_capability_hash: Some(a.capability_revision_hash),
                            eval_run_id: Some(a.eval_run_id),
                            action: "retire",
                        },
                    ),
                ),
            },
    {
        if !exists {
            return Err(ExpertProfileRepositoryError::ProfileNotFound(profile_id));
        }
        match activation {
            None => Ok(None),
            Some(a) => Ok(
                Some(
                    ActivationJournalEntry {
                        capability_revision_hash: a.capability_revision_hash.clone(),
                        previous_capability_hash: Some(a.capability_revision_hash.clone()),
                        eval_run_id: Some(a.eval_run_id),
                        action: "retire",
                    },
                ),
            ),
        }
    }

    /// Deleting a profile: never while it is active; it must have a version,
    /// whose latest digest the journal records.
    pub fn deletion(profile_id: u128, active: bool, last_version_hash: Option<String>) -> (r: Result<
        ActivationJournalEntry,
        ExpertProfileRepositoryError,
    >)
        ensures
            active ==> r == Err::<ActivationJournalEntry, ExpertProfileRepositoryError>(
                ExpertProfileRepositoryError::ProfileActive,
            ),
            !active ==> match last_version_hash {
                None => r == Err::<ActivationJournalEntry, ExpertProfileRepositoryError>(
                    ExpertProfileRepositoryError::ProfileNotFound(profile_id),
                ),
                Some(h) => r == Ok::<ActivationJournalEntry, ExpertProfileRepositoryError>(
                    ActivationJournalEntry {
                        capability_revision_hash: h,
                        previous_capability_hash: None,
                        eval_run_id: None,
                        action: "delete",
                    },
                ),
            },
    {
        if active {
            return Err(ExpertProfileRepositoryError::ProfileActive);
        }
        match last_version_hash {
            None => Err(ExpertProfileRepositoryError::ProfileNotFound(profile_id)),
            Some(h) => Ok(
                ActivationJournalEntry {
                    capability_revision_hash: h,
                    previous_capability_hash: None,
                    eval_run_id: None,
                    action: "delete",
                },
            ),
        }
    }
}

} // verus!
