use meeting_assistant::expert_profiles::presets::interview_profile;
use meeting_assistant::expert_profiles::repository::{ExpertProfileSummary, StoredProfileActivation};
use meeting_assistant::live_assist::profile_choices::assist_profile_choice;

fn summary(retired: bool) -> ExpertProfileSummary {
    ExpertProfileSummary {
        id: "00000000-0000-4000-8000-000000000001".to_string(),
        name: "Interview coach".to_string(),
        retired_at: if retired { Some("2026-08-20T00:00:00Z".to_string()) } else { None },
        created_at: "2026-08-01T00:00:00Z".to_string(),
        updated_at: "2026-08-01T00:00:00Z".to_string(),
    }
}

fn activation(status: &str) -> StoredProfileActivation {
    StoredProfileActivation {
        profile_id: "00000000-0000-4000-8000-000000000001".to_string(),
        profile_version_hash: "sha256:version".to_string(),
        capability_revision_hash: "sha256:capability".to_string(),
        eval_run_id: 3,
        status: status.to_string(),
        superseded_reason: None,
        activated_at: "2026-08-02T00:00:00Z".to_string(),
    }
}

#[test]
fn an_active_profile_is_offered_with_its_playbooks() {
    let profile = interview_profile();
    let active = activation("active");
    let choice = assist_profile_choice(1, &summary(false), Some(&active), Some(&profile)).unwrap();
    assert_eq!(choice.profile_id, 1);
    assert_eq!(choice.profile_version_hash, "sha256:version");
    assert_eq!(choice.profile_name, "Interview coach");
    assert_eq!(choice.playbooks.len(), profile.playbooks.len());
    for (c, p) in choice.playbooks.iter().zip(profile.playbooks.iter()) {
        assert_eq!(c.id, p.id);
        assert_eq!(c.name, p.name);
    }
}

#[test]
fn retired_inactive_or_missing_profiles_are_not_offered() {
    let profile = interview_profile();
    let active = activation("active");
    let superseded = activation("superseded");
    assert_eq!(assist_profile_choice(1, &summary(true), Some(&active), Some(&profile)), None);
    assert_eq!(assist_profile_choice(1, &summary(false), None, Some(&profile)), None);
    assert_eq!(assist_profile_choice(1, &summary(false), Some(&superseded), Some(&profile)), None);
    assert_eq!(assist_profile_choice(1, &summary(false), Some(&active), None), None);
}
