use meeting_assistant::expert_profiles::commands::{
    evaluation_baseline, require_activation_binding, require_playbook, resolve_provider_access,
    BaselineSource, SummaryProviderKind,
};
use meeting_assistant::expert_profiles::presets::interview_profile;

#[test]
fn the_active_version_is_the_evaluation_baseline() {
    assert_eq!(evaluation_baseline(None, "sha256:a"), BaselineSource::NoBaseline);
    assert_eq!(evaluation_baseline(Some("sha256:a"), "sha256:a"), BaselineSource::Candidate);
    assert_eq!(
        evaluation_baseline(Some("sha256:b"), "sha256:a"),
        BaselineSource::Stored("sha256:b".to_string())
    );
}

#[test]
fn generation_needs_a_playbook_of_the_active_version() {
    let profile = interview_profile();
    assert_eq!(require_playbook(&profile, profile.playbooks[0].id), Ok(()));
    let error = require_playbook(&profile, 0xdead_beef).unwrap_err();
    assert_eq!(error.code, "INVALID_PLAYBOOK");
    assert_eq!(error.message, "selected playbook is not part of the active profile version");
}

#[test]
fn an_activation_without_binding_is_a_digest_mismatch() {
    assert_eq!(require_activation_binding(Some(7)), Ok(7));
    let error = require_activation_binding::<u32>(None).unwrap_err();
    assert_eq!(error.code, "DIGEST_MISMATCH");
    assert_eq!(error.message, "active profile has no model binding");
}

#[test]
fn refusals_of_provider_access_carry_their_messages() {
    let missing_key =
        resolve_provider_access(SummaryProviderKind::OpenAI, "", None, None, true).unwrap_err();
    assert_eq!(missing_key.code, "PROVIDER_UNAVAILABLE");
    assert_eq!(missing_key.message, "API key is not configured for the selected provider");
    let consent =
        resolve_provider_access(SummaryProviderKind::OpenAI, "key", None, None, false).unwrap_err();
    assert_eq!(consent.code, "CLOUD_CONSENT_REQUIRED");
    assert_eq!(
        consent.message,
        "evaluation or generation would send transcript content to a remote provider"
    );
}
