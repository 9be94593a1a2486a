use meeting_assistant::app_paths::{
    AppPaths, ANALYTICS_STORE, CURRENT_IDENTIFIER, DATA_ROOT_NAME, LEGACY_IDENTIFIER,
};
use meeting_assistant::expert_profiles::bundle::BundleError;
use meeting_assistant::expert_profiles::commands::{
    bundle_error, endpoint_is_local, strip_title, ProfileCommandError,
};
use meeting_assistant::expert_profiles::hashing::prompt_renderer_hash;
use meeting_assistant::expert_profiles::rendering::OUTPUT_PARSER_VERSION;
use meeting_assistant::expert_profiles::repository::{
    BindingFacts, EvalRunRecord, ExpertProfileRepositoryError, ExpertProfilesRepository,
    ReportDigests, StoredProfileActivation, StoredProfileVersion,
};
use meeting_assistant::expert_profiles::safety_gate::{
    safety_workload_for_playbook, INJECTION_CANARY, SAFETY_GATE_VERSION,
};
use meeting_assistant::expert_profiles::models::HardAssertion;
use meeting_assistant::onboarding::{
    completed_status, enforce_permission_recheck, permission_recheck_needed, status_to_save,
    OnboardingStatus,
};
use uuid::Uuid;

#[test]
fn only_loopback_custom_endpoints_bypass_explicit_cloud_consent() {
    assert!(endpoint_is_local("http://localhost:8000/v1"));
    assert!(endpoint_is_local("http://127.0.0.1:11434"));
    assert!(!endpoint_is_local("https://models.example.com/v1"));
    assert!(!endpoint_is_local("http://192.168.1.20:8000/v1"));
}

#[test]
fn stored_profile_summary_body_omits_only_the_generated_title() {
    assert_eq!(
        strip_title("# Meeting title\n\n**Summary**\n\nBody"),
        "**Summary**\n\nBody"
    );
    assert_eq!(strip_title("**Summary**\n\nBody"), "**Summary**\n\nBody");
}

fn run(outcome: &str) -> EvalRunRecord {
    EvalRunRecord {
        candidate_capability_hash: "sha256:capability".to_string(),
        eval_plan_hash: "sha256:plan".to_string(),
        safety_gate_version: SAFETY_GATE_VERSION.to_string(),
        model_binding_hash: "sha256:binding".to_string(),
        outcome: outcome.to_string(),
    }
}

fn report() -> ReportDigests {
    ReportDigests {
        candidate_profile_version_hash: "sha256:version".to_string(),
        candidate_capability_hash: "sha256:capability".to_string(),
        eval_plan_hash: "sha256:plan".to_string(),
        model_binding_hash: "sha256:binding".to_string(),
        safety_gate_version: SAFETY_GATE_VERSION.to_string(),
    }
}

fn binding() -> BindingFacts {
    BindingFacts {
        binding_hash: "sha256:binding".to_string(),
        prompt_renderer_hash: prompt_renderer_hash(),
        output_parser_version: OUTPUT_PARSER_VERSION,
    }
}

fn activation(hash: &str, status: &str, reason: Option<&str>) -> StoredProfileActivation {
    StoredProfileActivation {
        profile_id: Uuid::nil().to_string(),
        profile_version_hash: "sha256:old-version".to_string(),
        capability_revision_hash: hash.to_string(),
        eval_run_id: 3,
        status: status.to_string(),
        superseded_reason: reason.map(str::to_string),
        activated_at: "earlier".to_string(),
    }
}

#[test]
fn only_a_qualifying_run_under_unchanged_inputs_activates() {
    assert_eq!(
        ExpertProfilesRepository::check_eval_run(7, None),
        Err(ExpertProfileRepositoryError::EvalRunNotFound(7))
    );
    assert_eq!(
        ExpertProfilesRepository::check_eval_run(7, Some(run("fail"))),
        Err(ExpertProfileRepositoryError::EvalRunNotQualifying {
            eval_run_id: 7,
            outcome: "fail".to_string()
        })
    );
    assert!(ExpertProfilesRepository::check_eval_run(7, Some(run("pass"))).is_ok());
    assert!(ExpertProfilesRepository::check_eval_run(7, Some(run("baseline_missing"))).is_ok());

    assert!(ExpertProfilesRepository::check_report_and_binding(&run("pass"), &report(), &binding()).is_ok());
    let mut tampered = report();
    tampered.eval_plan_hash = "sha256:other".to_string();
    assert_eq!(
        ExpertProfilesRepository::check_report_and_binding(&run("pass"), &tampered, &binding()),
        Err(ExpertProfileRepositoryError::StoredContentIntegrity {
            kind: "expert evaluation report"
        })
    );
    let mut other_binding = binding();
    other_binding.binding_hash = "sha256:new-binding".to_string();
    assert_eq!(
        ExpertProfilesRepository::check_report_and_binding(&run("pass"), &report(), &other_binding),
        Err(ExpertProfileRepositoryError::ActivationInputChanged(
            "model binding changed after evaluation".to_string()
        ))
    );
    let mut other_parser = binding();
    other_parser.output_parser_version += 1;
    assert!(matches!(
        ExpertProfilesRepository::check_report_and_binding(&run("pass"), &report(), &other_parser),
        Err(ExpertProfileRepositoryError::ActivationInputChanged(_))
    ));

    assert!(ExpertProfilesRepository::check_inputs_available(true, true).is_ok());
    assert!(ExpertProfilesRepository::check_inputs_available(true, false).is_err());

    let current = activation("sha256:previous", "active", None);
    assert!(ExpertProfilesRepository::check_expected_previous(Some(&current), Some("sha256:previous")).is_ok());
    assert!(ExpertProfilesRepository::check_expected_previous(Some(&current), None).is_err());
    assert!(ExpertProfilesRepository::check_expected_previous(None, None).is_ok());

    let profile_id = Uuid::new_v4();
    let (journal, record) = ExpertProfilesRepository::activation_outcome(
        profile_id.as_u128(),
        Some(&current),
        &run("pass"),
        &report(),
        9,
        "now".to_string(),
    );
    assert_eq!(journal.len(), 2);
    assert_eq!(journal[0].action, "supersede");
    assert_eq!(journal[1].action, "activate");
    assert_eq!(journal[1].previous_capability_hash.as_deref(), Some("sha256:previous"));
    assert_eq!(record.profile_id, profile_id.to_string());
    assert_eq!(record.status, "active");
    assert_eq!(record.eval_run_id, 9);
    assert_eq!(record.capability_revision_hash, "sha256:capability");
}

#[test]
fn superseding_is_idempotent_and_inactive_bindings_are_refused() {
    let current = activation("sha256:cap", "active", None);
    let (first, entry) = ExpertProfilesRepository::supersede(Some(current), "reconfigured");
    let first = first.unwrap();
    assert_eq!(first.status, "superseded");
    assert_eq!(first.superseded_reason.as_deref(), Some("reconfigured"));
    assert_eq!(entry.unwrap().action, "supersede");
    let (second, again) = ExpertProfilesRepository::supersede(Some(first.clone()), "reconfigured");
    assert_eq!(second, Some(first.clone()));
    assert!(again.is_none());
    assert_eq!(ExpertProfilesRepository::supersede(None, "x"), (None, None));

    assert_eq!(
        ExpertProfilesRepository::require_active(1, Some(first)),
        Err(ExpertProfileRepositoryError::BindingSuperseded("reconfigured".to_string()))
    );
    assert_eq!(
        ExpertProfilesRepository::require_active(1, None),
        Err(ExpertProfileRepositoryError::ProfileNotFound(1))
    );
    assert!(ExpertProfilesRepository::check_binding_unchanged("a", "a").is_ok());
    assert!(ExpertProfilesRepository::check_binding_unchanged("a", "b").is_err());
}

#[test]
fn active_profiles_are_retired_before_deletion() {
    assert_eq!(
        ExpertProfilesRepository::deletion(1, true, Some("sha256:v".to_string())),
        Err(ExpertProfileRepositoryError::ProfileActive)
    );
    assert_eq!(
        ExpertProfilesRepository::deletion(1, false, None),
        Err(ExpertProfileRepositoryError::ProfileNotFound(1))
    );
    let entry = ExpertProfilesRepository::deletion(1, false, Some("sha256:v".to_string())).unwrap();
    assert_eq!(entry.action, "delete");
    assert_eq!(entry.capability_revision_hash, "sha256:v");
    let current = activation("sha256:cap", "active", None);
    let retired = ExpertProfilesRepository::retirement(1, true, Some(&current)).unwrap().unwrap();
    assert_eq!(retired.action, "retire");
    assert_eq!(ExpertProfilesRepository::retirement(1, true, None), Ok(None));
    assert_eq!(
        ExpertProfilesRepository::retirement(1, false, None),
        Err(ExpertProfileRepositoryError::ProfileNotFound(1))
    );
}

#[test]
fn identical_content_reuses_its_version() {
    let existing = StoredProfileVersion {
        profile_id: Uuid::nil().to_string(),
        version_hash: "sha256:v".to_string(),
        seq: 1,
        schema_version: 1,
        created_at: "earlier".to_string(),
    };
    assert_eq!(
        ExpertProfilesRepository::reconcile_profile_version(
            true,
            Some(existing.clone()),
            0,
            2,
            "sha256:v".to_string(),
            1,
            "now".to_string()
        ),
        Ok((existing, false))
    );
    let (created, insert) = ExpertProfilesRepository::reconcile_profile_version(
        true,
        None,
        0,
        2,
        "sha256:w".to_string(),
        1,
        "now".to_string(),
    )
    .unwrap();
    assert!(insert);
    assert_eq!(created.seq, 2);
    assert_eq!(created.profile_id, Uuid::nil().to_string());
    assert_eq!(
        ExpertProfilesRepository::reconcile_profile_version(
            false,
            None,
            4,
            2,
            "sha256:w".to_string(),
            1,
            "now".to_string()
        ),
        Err(ExpertProfileRepositoryError::ProfileNotFound(4))
    );
}

#[test]
fn errors_keep_their_stable_codes() {
    let error = ProfileCommandError::from_repository(&ExpertProfileRepositoryError::EvalRunNotQualifying {
        eval_run_id: 3,
        outcome: "inconclusive".to_string(),
    });
    assert_eq!(error.code, "EVAL_INCONCLUSIVE");
    assert_eq!(error.message, "evaluation run 3 has non-qualifying outcome inconclusive");
    let missing = ProfileCommandError::from_repository(&ExpertProfileRepositoryError::ProfileNotFound(
        Uuid::nil().as_u128(),
    ));
    assert_eq!(missing.code, "NOT_FOUND");
    assert_eq!(
        missing.message,
        "expert profile 00000000-0000-0000-0000-000000000000 was not found"
    );
    let bundle = bundle_error(&BundleError::DigestMismatch("profile"));
    assert_eq!(bundle.code, "DIGEST_MISMATCH");
    assert_eq!(bundle.message, "DIGEST_MISMATCH: profile");
}

#[test]
fn the_safety_workload_names_each_playbook() {
    let playbook = Uuid::parse_str("7d3a1f9e-2c4b-4a6d-9e8f-1b2c3d4e5f6a").unwrap();
    let workload = safety_workload_for_playbook(playbook.as_u128());
    assert_eq!(workload.fixtures.len(), 3);
    assert_eq!(workload.cases.len(), 3);
    assert_eq!(
        workload.fixtures[1].id,
        format!("__meetily_safety_injection_{playbook}")
    );
    assert_eq!(workload.cases[1].fixture_id, workload.fixtures[1].id);
    assert_eq!(
        workload.cases[1].assertions.hard,
        vec![
            HardAssertion::SchemaCompliance,
            HardAssertion::LiteralAbsent {
                value: INJECTION_CANARY.to_string()
            }
        ]
    );
    assert!(workload.fixtures[1].transcript_text.contains(INJECTION_CANARY));
    assert_eq!(workload.fixtures[0].source, "synthetic:application-safety");
}

fn join(parts: &[&str]) -> Vec<String> {
    parts.iter().map(|part| part.to_string()).collect()
}

#[test]
fn paths_are_stable_and_identifier_independent() {
    let paths = AppPaths::from_bases("local", "roaming", "config", CURRENT_IDENTIFIER);

    assert_eq!(paths.root(), &join(&["local", DATA_ROOT_NAME]));
    assert_eq!(
        paths.legacy_data_root(),
        &join(&["roaming", LEGACY_IDENTIFIER])
    );
    assert_ne!(paths.root(), paths.identifier_local_root());
    assert_ne!(paths.root(), paths.identifier_roaming_root());
    assert_eq!(
        paths.store_path(ANALYTICS_STORE).unwrap(),
        join(&["local", DATA_ROOT_NAME, "stores", ANALYTICS_STORE])
    );
}

#[test]
fn store_paths_are_allowlisted() {
    let paths = AppPaths::from_bases("local", "roaming", "config", CURRENT_IDENTIFIER);

    for store in meeting_assistant::app_paths::store_file_names() {
        assert!(paths.store_path(store).is_ok());
    }
    assert!(paths.store_path("../outside.json").is_err());
    assert!(paths.store_path("unknown.json").is_err());
}

#[test]
fn temporary_recordings_stay_in_the_data_root() {
    let paths = AppPaths::from_bases("local", "roaming", "config", CURRENT_IDENTIFIER);
    assert_eq!(
        paths.temporary_recording_path("take-1.wav").unwrap(),
        join(&["local", DATA_ROOT_NAME, "take-1.wav"])
    );
    assert!(paths.temporary_recording_path("../take.wav").is_err());
    assert!(paths.temporary_recording_path("a\\b.wav").is_err());
    assert_eq!(
        paths.database_path(),
        join(&["local", DATA_ROOT_NAME, "meeting_minutes.sqlite"])
    );
    assert_eq!(
        paths.summary_models_dir(),
        join(&["local", DATA_ROOT_NAME, "models", "summary"])
    );
}

#[test]
fn completed_macos_onboarding_rechecks_identity_and_microphone_permission() {
    let mut status = OnboardingStatus::initial("2026-01-01T00:00:00Z".to_string());
    status.completed = true;

    assert!(permission_recheck_needed(&status, true, true));

    status.permissions_bundle_id = Some(CURRENT_IDENTIFIER.to_string());
    assert!(!permission_recheck_needed(&status, true, true));
    assert!(permission_recheck_needed(&status, true, false));
    assert!(!permission_recheck_needed(&status, false, false));
}

#[test]
fn onboarding_reopens_permissions_and_records_completion() {
    let mut status = OnboardingStatus::initial("t0".to_string());
    status.completed = true;
    status.current_step = 3;
    let reopened = enforce_permission_recheck(status.clone(), true, true);
    assert!(!reopened.completed);
    assert_eq!(reopened.current_step, 4);
    assert_eq!(enforce_permission_recheck(status.clone(), false, true), status);

    let saved = status_to_save(status, "t1".to_string());
    assert_eq!(saved.last_updated, "t1");
    assert_eq!(saved.permissions_bundle_id.as_deref(), Some(CURRENT_IDENTIFIER));
    assert!(!permission_recheck_needed(&saved, true, true));

    let done = completed_status(OnboardingStatus::initial("t2".to_string()), "qwen".to_string());
    assert!(done.completed);
    assert_eq!(done.current_step, 4);
    assert_eq!(done.model_status.parakeet, "downloaded");
    assert_eq!(done.model_status.selected_summary_model.as_deref(), Some("qwen"));
}
