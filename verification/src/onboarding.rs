//! Onboarding progress: the initial state, when a completed onboarding must
//! reopen its permissions step, and what saving and completing record.
use vstd::prelude::*;

use crate::app_paths::CURRENT_IDENTIFIER;
use crate::text::{str_eq, string_from};

verus! {

/// The permissions step, the last one on macOS.
pub const PERMISSIONS_STEP: u8 = 4;

#[derive(Debug, Clone, PartialEq, Eq)]
pub struct ModelStatus {
    /// "downloaded", "not_downloaded" or "downloading".
    pub parakeet: String,
    /// The same states, for the summary model.
    pub summary: String,
    pub selected_summary_model: Option<String>,
}

#[derive(Debug, Clone, PartialEq, Eq)]
pub struct OnboardingStatus {
    pub version: String,
    pub completed: bool,
    pub current_step: u8,
    pub model_status: ModelStatus,
    pub last_updated: String,
    pub permissions_bundle_id: Option<String>,
}

impl OnboardingStatus {
    /// The state of an onboarding never saved: version 1.0, at its first
    /// step, with no model downloaded.
    pub fn initial(last_updated: String) -> (r: OnboardingStatus)
        ensures
            r.version@ == "1.0"@,
            !r.completed,
            r.current_step == 1,
            r.model_status.parakeet@ == "not_downloaded"@,
            r.model_status.summary@ == "not_downloaded"@,
            r.model_status.selected_summary_model is None,
            r.last_updated == last_updated,
            r.permissions_bundle_id is None,
    {
        OnboardingStatus {
            version: string_from("1.0"),
            completed: false,
            current_step: 1,
            model_status: ModelStatus {
                parakeet: string_from("not_downloaded"),
                summary: string_from("not_downloaded"),
                selected_summary_model: None,
            },
            last_updated,
            permissions_bundle_id: None,
        }
    }
}

/// A completed onboarding on macOS must check its permissions again when
/// they were granted to another bundle identity, or the microphone is no
/// longer authorised.
pub open spec fn recheck_needed(s: OnboardingStatus, is_macos: bool, microphone_authorized: bool) -> bool {
    s.completed && is_macos && (match s.permissions_bundle_id {
        Some(id) => id@ != CURRENT_IDENTIFIER@,
        None => true,
    } || !microphone_authorized)
}

pub fn permission_recheck_needed(status: &OnboardingStatus, is_macos: bool, microphone_authorized: bool) -> (r:
    bool)
    ensures
        r == recheck_needed(*status, is_macos, microphone_authorized),
{
    let other_identity = match &status.permissions_bundle_id {
        Some(id) => !str_eq(id.as_str(), CURRENT_IDENTIFIER),
        None => true,
    };
    status.completed && is_macos && (other_identity || !microphone_authorized)
}

/// Reopens the permissions step of an onboarding that needs its permissions
/// checked again; any other status is returned unchanged.
pub fn enforce_permission_recheck(status: OnboardingStatus, is_macos: bool, microphone_authorized: bool) -> (r:
    OnboardingStatus)
    ensures
        recheck_needed(status, is_macos, microphone_authorized) ==> r == (OnboardingStatus {
            completed: false,
            current_step: PERMISSIONS_STEP,
            ..status
        }),
        !recheck_needed(status, is_macos, microphone_authorized) ==> r == status,
{
    let mut status = status;
    if permission_recheck_needed(&status, is_macos, microphone_authorized) {
        status.completed = false;
        status.current_step = PERMISSIONS_STEP;
    }
    status
}

/// What is saved: the status stamped with the time of saving and with the
/// bundle identity its permissions were granted to.
pub fn status_to_save(status: OnboardingStatus, now: String) -> (r: OnboardingStatus)
    ensures
        r == (OnboardingStatus {
            last_updated: now,
            permissions_bundle_id: r.permissions_bundle_id,
            ..status
        }),
        r.permissions_bundle_id matches Some(id) && id@ == CURRENT_IDENTIFIER@,
{
    let mut status = status;
    status.last_updated = now;
    status.permissions_bundle_id = Some(string_from(CURRENT_IDENTIFIER));
    status
}

/// Completing onboarding: done, at the last step, both models downloaded
/// and the chosen summary model recorded.
pub fn completed_status(status: OnboardingStatus, model: String) -> (r: OnboardingStatus)
    ensures
        r.completed,
        r.current_step == PERMISSIONS_STEP,
        r.model_status.parakeet@ == "downloaded"@,
        r.model_status.summary@ == "downloaded"@,
        r.model_status.selected_summary_model == Some(model),
        r.version == status.version,
        r.last_updated == status.last_updated,
        r.permissions_bundle_id == status.permissions_bundle_id,
{
    let mut status = status;
    status.completed = true;
    status.current_step = PERMISSIONS_STEP;
    status.model_status.parakeet = string_from("downloaded");
    status.model_status.summary = string_from("downloaded");
    status.model_status.selected_summary_model = Some(model);
    status
}

/// Saving stamps the current bundle identity, so on a Mac whose microphone
/// is still authorised a saved completed onboarding needs no recheck.
pub proof fn lemma_saved_status_needs_no_recheck(s: OnboardingStatus)
    requires
        s.permissions_bundle_id matches Some(id) && id@ == CURRENT_IDENTIFIER@,
    ensures
        !recheck_needed(s, true, true),
{
}

} // verus!
