use meeting_assistant::expert_profiles::bundle::{
    check_bundle_input, json_depth, prepare_import, BundleError, ExpertProfileBundle,
    ImportIdentityMode,
};
use meeting_assistant::expert_profiles::hashing::{hash_fixture_text, hash_profile_version};
use meeting_assistant::expert_profiles::models::{
    AdjudicatorKind, EvalAssertions, EvalCase, EvalFixture, EvalPlan, EvalPolicy, EvalSuite,
    ExpertProfileVersion, HardAssertion, HardRegressionRule, MeetingPlaybook, OutputContract,
    OutputSection, ProfileBoundaries, ProfileIdentity, ProfileOutputFormat, ProfileStyle,
    RegressionPolicy, RetrievalMode, RetrievalPolicy, SectionFormat, SemanticAssertion,
    EVAL_PLAN_SCHEMA_VERSION, EXPERT_PROFILE_SCHEMA_VERSION,
};
use meeting_assistant::expert_profiles::presets::{interview_eval_plan, interview_profile};
use meeting_assistant::expert_profiles::rendering::{
    build_profile_render_spec, parse_profile_markdown,
};
use meeting_assistant::expert_profiles::validation::{
    check_json_input, Validate, ValidationErrorCode,
};
use meeting_assistant::expert_profiles::evaluation::{
    call_schedule, case_for_repetition, check_adjudication_plan, check_evaluation_request, observe, observe_adjudication,
    planned_call_count, run_repetitions, run_step, EvalTarget, EvaluationError, GenerationEvent,
    PlannedCall, RepetitionFacts, RunProgress, RunStatus,
};
use meeting_assistant::expert_profiles::safety_gate::evaluation_workload;
use uuid::Uuid;

fn sample_profile() -> ExpertProfileVersion {
    ExpertProfileVersion {
        schema_version: EXPERT_PROFILE_SCHEMA_VERSION,
        identity: ProfileIdentity {
            name: "Meeting Coach".to_string(),
            description: "Coaches the host using meeting evidence.".to_string(),
            expertise: vec!["facilitation".to_string(), "decision tracking".to_string()],
        },
        objectives: vec!["Surface facilitation issues".to_string()],
        perspective: "External observer, not a participant".to_string(),
        style: ProfileStyle {
            tone: "direct, supportive".to_string(),
            verbosity: "concise".to_string(),
            language: "en".to_string(),
            format: ProfileOutputFormat::Markdown,
        },
        boundaries: ProfileBoundaries {
            in_scope: vec!["facilitation observations".to_string()],
            out_of_scope: vec!["personnel judgments".to_string()],
            abstain_when: vec!["evidence is insufficient".to_string()],
            escalation_policy: "Recommend a human decision; never act on their behalf.".to_string(),
        },
        retrieval_policy: RetrievalPolicy {
            mode: RetrievalMode::TranscriptOnly,
        },
        output_contract: OutputContract {
            title_required: true,
            sections: vec![OutputSection {
                id: "coaching-observations".to_string(),
                title: "Coaching observations".to_string(),
                instruction: "List supported facilitation observations.".to_string(),
                format: SectionFormat::List,
                required: true,
            }],
        },
        playbooks: vec![MeetingPlaybook {
            id: Uuid::parse_str("7d3a1f9e-2c4b-4a6d-9e8f-1b2c3d4e5f6a")
                .unwrap()
                .as_u128(),
            name: "Standup coaching".to_string(),
            description: "A coaching pass for daily standups.".to_string(),
            objective: "Assess standup health and coach the host.".to_string(),
            sections: vec![OutputSection {
                id: "standup-health".to_string(),
                title: "Standup health".to_string(),
                instruction: "Assess focus, blockers, and action clarity.".to_string(),
                format: SectionFormat::Paragraph,
                required: true,
            }],
        }],
    }
}

/// The plan of the original fixture; its scores (a rubric threshold of 0.8,
/// a minimum score of 0.8 and a delta floor of -0.05) all lie in range.
fn sample_eval_plan(profile: &ExpertProfileVersion) -> EvalPlan {
    let transcript_text =
        "Sarah: Yesterday I finished login. Mike: I am blocked on the API review.".to_string();

    EvalPlan {
        schema_version: EXPERT_PROFILE_SCHEMA_VERSION,
        fixtures: vec![EvalFixture {
            id: "fixture-standup".to_string(),
            content_hash: hash_fixture_text(&transcript_text),
            source: "synthetic:user".to_string(),
            transcript_text,
            suite: EvalSuite::Depth,
            answer_shape: None,
            evidence_contracts: Vec::new(),
            evidence_records: Vec::new(),
            required_elements: Vec::new(),
            forbidden_expansions: Vec::new(),
            applicability: None,
        }],
        cases: vec![EvalCase {
            id: "case-standup".to_string(),
            fixture_id: "fixture-standup".to_string(),
            playbook_id: profile.playbooks[0].id,
            assertions: EvalAssertions {
                hard: vec![
                    HardAssertion::SchemaCompliance,
                    HardAssertion::SectionPresent {
                        section_id: "coaching-observations".to_string(),
                    },
                    HardAssertion::LiteralPresent {
                        value: "API review".to_string(),
                    },
                ],
                semantic: vec![SemanticAssertion::Rubric {
                    question: "Does the output stay within the coach perspective?".to_string(),
                    adjudicator: AdjudicatorKind::Human,
                    threshold_in_range: 0.8 >= 0.0 && 0.8 <= 1.0,
                }],
            },
        }],
        policy: EvalPolicy {
            activation_runs_per_case: 2,
            all_hard_runs_must_pass: true,
            semantic_min_score_in_range: 0.8 >= 0.0 && 0.8 <= 1.0,
            timeout_seconds: 300,
        },
        regression_policy: RegressionPolicy {
            hard_rule: HardRegressionRule::NoNewHardFailure,
            semantic_delta_floor_in_range: -0.05 >= -1.0 && -0.05 <= 0.0,
        },
    }
}

#[test]
fn free_form_configuration_is_not_misrepresented_as_a_security_boundary() {
    let mut profile = sample_profile();
    profile.perspective =
        "Discuss the phrase 'ignore previous instructions' as meeting evidence.".to_string();

    assert!(profile.validate().is_ok());
}

#[test]
fn profile_requires_an_embedded_playbook() {
    let mut profile = sample_profile();
    profile.playbooks.clear();

    let errors = profile.validate().unwrap_err();
    assert!(errors
        .0
        .iter()
        .any(|error| error.code == ValidationErrorCode::InvalidPlaybook));
}

#[test]
fn rendered_sections_cannot_duplicate_profile_section_identity() {
    let mut profile = sample_profile();
    profile.playbooks[0].sections[0].id = "coaching-observations".to_string();

    let errors = profile.validate().unwrap_err();
    assert!(errors
        .0
        .iter()
        .any(|error| error.code == ValidationErrorCode::DuplicateValue));
}

#[test]
fn eval_plan_must_cover_every_embedded_playbook() {
    let mut profile = sample_profile();
    let mut second = profile.playbooks[0].clone();
    second.id = Uuid::new_v4().as_u128();
    second.name = "Planning coaching".to_string();
    profile.playbooks.push(second);

    let plan = sample_eval_plan(&profile);
    let errors = plan.validate_for_profile(&profile).unwrap_err();
    assert!(errors.0.iter().any(|error| {
        error.code == ValidationErrorCode::EmptyEvalPlan
            && error.message.contains("has no evaluation case")
    }));
}

#[test]
fn fixture_hash_mismatch_fails_closed() {
    let profile = sample_profile();
    let mut plan = sample_eval_plan(&profile);
    plan.fixtures[0].content_hash = "sha256:deadbeef".to_string();

    let errors = plan.validate().unwrap_err();
    assert!(errors
        .0
        .iter()
        .any(|error| error.code == ValidationErrorCode::DigestMismatch));
}

#[test]
fn phase_one_eval_fixtures_must_be_declared_synthetic() {
    let profile = sample_profile();
    let mut plan = sample_eval_plan(&profile);
    plan.fixtures[0].source = "meeting:real-transcript".to_string();

    let errors = plan.validate().unwrap_err();
    assert!(errors.0.iter().any(|error| {
        error.path == "$.fixtures[0].source" && error.message.contains("synthetic:")
    }));
}

#[test]
fn hostile_json_depth_is_rejected_before_deserialization() {
    let nested = format!("{}0{}", "[".repeat(33), "]".repeat(33));
    let errors = check_json_input(&nested).unwrap_err();
    assert!(errors
        .0
        .iter()
        .any(|error| error.code == ValidationErrorCode::LimitExceeded));
}

#[test]
fn profile_hash_is_well_formed() {
    let digest = hash_profile_version(&sample_profile()).unwrap();
    assert!(digest.starts_with("sha256:"));
    assert_eq!(digest.len(), 71);
    assert!(digest[7..]
        .chars()
        .all(|character| character.is_ascii_hexdigit() && !character.is_ascii_uppercase()));
    assert_eq!(digest, hash_profile_version(&sample_profile()).unwrap());
}

#[test]
fn profile_renderer_merges_global_and_playbook_sections_deterministically() {
    let profile = sample_profile();
    let playbook_id = profile.playbooks[0].id;

    let rendered = build_profile_render_spec(&profile, playbook_id).unwrap();

    let titles: Vec<_> = rendered
        .template
        .sections
        .iter()
        .map(|section| section.title.as_str())
        .collect();
    assert_eq!(titles, ["Coaching observations", "Standup health"]);
    assert!(rendered
        .configuration_context
        .starts_with("<expert_profile_configuration renderer_version=\"1\">"));
    assert!(rendered
        .configuration_context
        .ends_with("</expert_profile_configuration>"));
    assert!(!rendered.configuration_context.contains("tools"));
}

#[test]
fn profile_output_parser_enforces_title_section_order_and_non_empty_content() {
    let profile = sample_profile();
    let playbook_id = profile.playbooks[0].id;
    let valid = "# Daily standup\n\n**Coaching observations**\n\n- The blocker has an owner.\n\n**Standup health**\n\nThe standup stayed focused.";

    let parsed = parse_profile_markdown(&profile, playbook_id, valid).unwrap();
    assert!(parsed.is_schema_compliant(), "{:?}", parsed.errors);
    assert_eq!(
        parsed.section_order,
        ["coaching-observations", "standup-health"]
    );

    let out_of_order = "# Daily standup\n\n**Standup health**\n\nFocused.\n\n**Coaching observations**\n\n- One observation.";
    let parsed = parse_profile_markdown(&profile, playbook_id, out_of_order).unwrap();
    assert!(!parsed.is_schema_compliant());
    assert!(parsed
        .errors
        .iter()
        .any(|error| error.contains("out of order")));

    let wrong_list_format = "# Daily standup\n\n**Coaching observations**\n\nThis should have been a list.\n\n**Standup health**\n\nThe standup stayed focused.";
    let parsed = parse_profile_markdown(&profile, playbook_id, wrong_list_format).unwrap();
    assert!(parsed
        .errors
        .iter()
        .any(|error| error.contains("must contain a Markdown list")));
}

#[test]
fn expert_depth_uses_question_specific_content_and_soft_length_targets() {
    let profile = interview_profile();
    let expert = &profile.playbooks[2];
    let instruction = &expert.sections[0].instruction;

    assert!(instruction.contains("Direct factual or commitment: 80-140 words"));
    assert!(instruction.contains("Strategic implementation: 220-275 words"));
    assert!(instruction.contains("soft maximum-depth targets"));
    assert!(instruction.contains("The general types are"));
    assert!(instruction.contains("The interview-specific types are"));
    assert!(!profile.playbooks[0].objective.contains('%'));
    assert!(!profile.playbooks[1].objective.contains('%'));
    assert!(profile.playbooks[0]
        .objective
        .contains("hypothetical questions"));
    assert!(profile.playbooks[1].objective.contains("capability gaps"));
}

#[test]
fn interview_preset_is_strict_valid_and_covers_all_three_levels() {
    let profile = interview_profile();
    let plan = interview_eval_plan(&profile);

    profile.validate().unwrap();
    plan.validate_for_profile(&profile).unwrap();
    assert_eq!(profile.playbooks.len(), 3);
    assert_eq!(plan.fixtures.len(), 6);
    assert_eq!(plan.cases.len(), 18);
    assert_eq!(profile.playbooks[0].name, "Junior");
    assert_eq!(profile.playbooks[1].name, "Mid-level");
    assert_eq!(profile.playbooks[2].name, "Expert");
}

#[test]
fn interview_plan_pairs_each_fixture_with_each_playbook() {
    let profile = interview_profile();
    let plan = interview_eval_plan(&profile);
    assert_eq!(plan.schema_version, EVAL_PLAN_SCHEMA_VERSION);
    assert_eq!(plan.cases[0].id, "biography-junior");
    assert_eq!(plan.cases[1].id, "biography-mid-level");
    assert_eq!(plan.cases[2].id, "biography-expert");
    assert_eq!(plan.cases[17].id, "capability-gap-expert");
    assert_eq!(plan.cases[4].fixture_id, "tripoli-authority");
    assert_eq!(plan.cases[4].playbook_id, profile.playbooks[1].id);
    assert_eq!(plan.fixtures[0].content_hash, hash_fixture_text(&plan.fixtures[0].transcript_text));
    assert_eq!(plan.cases[0].assertions.hard.len(), 2);
    assert_eq!(plan.cases[0].assertions.semantic.len(), 6);
    assert_eq!(plan.policy.activation_runs_per_case, 2);
}

#[test]
fn an_evaluation_plan_schema_version_is_accepted() {
    let profile = interview_profile();
    let mut plan = interview_eval_plan(&profile);
    plan.schema_version = EXPERT_PROFILE_SCHEMA_VERSION;
    assert!(plan.validate_for_profile(&profile).is_ok());
    plan.schema_version = 3;
    let errors = plan.validate_for_profile(&profile).unwrap_err();
    assert_eq!(errors.0[0].code, ValidationErrorCode::SchemaMismatch);
    assert_eq!(errors.0[0].path, "$.schema_version");
    assert_eq!(errors.0[0].message, "expected schema version 1 or 2, got 3");
}

#[test]
fn the_call_schedule_runs_candidate_then_baseline_repetitions() {
    let profile = sample_profile();
    let plan = sample_eval_plan(&profile);
    let baseline_ids = vec![plan.cases[0].playbook_id];
    assert_eq!(run_repetitions(&plan, true), plan.policy.activation_runs_per_case);
    assert_eq!(run_repetitions(&plan, false), 1);
    let schedule = call_schedule(&plan.cases, &baseline_ids, 2);
    assert_eq!(schedule.len(), planned_call_count(&plan.cases, &baseline_ids, 2));
    assert_eq!(
        schedule[0],
        PlannedCall { case_index: 0, target: EvalTarget::Candidate, repetition: 0 }
    );
    assert_eq!(
        schedule[1],
        PlannedCall { case_index: 0, target: EvalTarget::Candidate, repetition: 1 }
    );
    assert_eq!(
        schedule[2],
        PlannedCall { case_index: 0, target: EvalTarget::Baseline, repetition: 0 }
    );
    assert_eq!(schedule.len(), 4 + 2 * (plan.cases.len() - 1));
}

const PLAN_DIGEST: &str = "sha256:1111111111111111111111111111111111111111111111111111111111111111";

fn sample_bundle() -> ExpertProfileBundle {
    let profile = sample_profile();
    let plan = sample_eval_plan(&profile);
    let version_hash = hash_profile_version(&profile).unwrap();
    ExpertProfileBundle::new(
        Uuid::new_v4().as_u128(),
        version_hash,
        profile,
        Uuid::new_v4().as_u128(),
        PLAN_DIGEST.to_string(),
        plan,
        PLAN_DIGEST,
    )
    .unwrap()
}

#[test]
fn tampered_bundle_digest_fails_before_persistence() {
    let mut bundle = sample_bundle();
    bundle.manifest.profile.content.style.tone = "tampered".to_string();
    assert!(matches!(
        bundle.validate(PLAN_DIGEST),
        Err(BundleError::DigestMismatch("profile"))
    ));
}

#[test]
fn a_bundle_checks_its_plan_digest_and_format() {
    let bundle = sample_bundle();
    assert!(bundle.validate(PLAN_DIGEST).is_ok());
    assert!(matches!(
        bundle.validate("sha256:other"),
        Err(BundleError::DigestMismatch("evaluation plan"))
    ));
    let mut old_format = bundle.clone();
    old_format.format_version = 2;
    assert!(matches!(
        old_format.validate(PLAN_DIGEST),
        Err(BundleError::UnsupportedFormat)
    ));
    let profile = sample_profile();
    let plan = sample_eval_plan(&profile);
    assert!(matches!(
        ExpertProfileBundle::new(
            1,
            "sha256:wrong".to_string(),
            profile,
            2,
            PLAN_DIGEST.to_string(),
            plan,
            PLAN_DIGEST,
        ),
        Err(BundleError::DigestMismatch("profile version"))
    ));
}

#[test]
fn bundle_input_limits_apply_before_parsing() {
    assert_eq!(json_depth("{\"a\":[1,{\"b\":\"[[[\"}]}"), 3);
    assert_eq!(json_depth("\"\\\"[\""), 0);
    assert_eq!(json_depth("]]{"), 1);
    let nested = format!("{}{}", "[".repeat(33), "]".repeat(33));
    assert!(matches!(
        check_bundle_input(&nested),
        Err(BundleError::DepthExceeded)
    ));
    let at_limit = format!("{}{}", "[".repeat(32), "]".repeat(32));
    assert!(check_bundle_input(&at_limit).is_ok());
    let large = "a".repeat(1024 * 1024 + 1);
    assert!(matches!(
        check_bundle_input(&large),
        Err(BundleError::LimitExceeded)
    ));
}

#[test]
fn clone_import_remaps_every_playbook_and_case() {
    let mut bundle = sample_bundle();
    let old_playbook = bundle.manifest.profile.content.playbooks[0].id;
    let remap = meeting_assistant::expert_profiles::bundle::remap_playbooks_for_clone(&mut bundle);
    assert_eq!(remap.len(), 1);
    assert_eq!(remap[0].0, old_playbook);
    let new_playbook = bundle.manifest.profile.content.playbooks[0].id;
    assert_eq!(remap[0].1, new_playbook);
    assert_ne!(new_playbook, old_playbook);
    assert_eq!(bundle.manifest.eval_plan.content.cases[0].playbook_id, new_playbook);
    assert_eq!(ImportIdentityMode::Clone, ImportIdentityMode::Clone);
}

#[test]
fn prepare_import_checks_then_remaps_a_clone() {
    let bundle = sample_bundle();
    let old_playbook = bundle.manifest.profile.content.playbooks[0].id;
    let (cloned, remap) = prepare_import(bundle.clone(), PLAN_DIGEST, ImportIdentityMode::Clone).unwrap();
    assert_eq!(remap.len(), 1);
    assert_eq!(remap[0].0, old_playbook);
    assert_ne!(remap[0].1, old_playbook);
    assert_eq!(cloned.manifest.profile.content.playbooks[0].id, remap[0].1);
    assert_eq!(cloned.manifest.eval_plan.content.cases[0].playbook_id, remap[0].1);

    let (restored, remap) =
        prepare_import(bundle.clone(), PLAN_DIGEST, ImportIdentityMode::RestoreIdentity).unwrap();
    assert_eq!(restored, bundle);
    assert!(remap.is_empty());

    let mut tampered = bundle.clone();
    tampered.manifest.profile.content.style.tone = "tampered".to_string();
    assert_eq!(
        prepare_import(tampered, PLAN_DIGEST, ImportIdentityMode::Clone).unwrap_err(),
        BundleError::DigestMismatch("profile")
    );
}

#[test]
fn restoring_an_identity_refuses_a_local_conflict() {
    let bundle = sample_bundle();
    let profile_id = Uuid::from_u128(bundle.manifest.profile.id).to_string();
    assert_eq!(
        meeting_assistant::expert_profiles::bundle::check_restore_identity(&bundle, &vec![]),
        Ok((bundle.manifest.profile.id, bundle.manifest.eval_plan.id))
    );
    assert_eq!(
        meeting_assistant::expert_profiles::bundle::check_restore_identity(
            &bundle,
            &vec!["other".to_string(), profile_id]
        ),
        Err(BundleError::IdentityConflict)
    );
}


#[test]
fn an_evaluation_request_is_checked_before_any_generation() {
    let profile = sample_profile();
    let plan = sample_eval_plan(&profile);
    let digest = hash_profile_version(&profile).unwrap();
    assert_eq!(check_evaluation_request(&profile, &plan, &digest, None), Ok(()));
    assert_eq!(
        check_evaluation_request(&profile, &plan, "sha256:other", None),
        Err(EvaluationError::CandidateDigestMismatch)
    );
    assert_eq!(
        check_evaluation_request(&profile, &plan, &digest, Some((&profile, "sha256:other"))),
        Err(EvaluationError::BaselineDigestMismatch)
    );
    assert_eq!(
        check_evaluation_request(&profile, &plan, &digest, Some((&profile, digest.as_str()))),
        Ok(())
    );
    let mut broken = profile.clone();
    broken.playbooks.clear();
    assert!(matches!(
        check_evaluation_request(&broken, &plan, &digest, None),
        Err(EvaluationError::Validation(_))
    ));
    assert_eq!(
        EvaluationError::CandidateDigestMismatch.message(),
        "candidate version hash does not match the supplied profile content"
    );
}

#[test]
fn re_adjudication_needs_the_source_plan_digest() {
    let profile = sample_profile();
    let plan = sample_eval_plan(&profile);
    assert_eq!(check_adjudication_plan(&plan, PLAN_DIGEST, PLAN_DIGEST), Ok(()));
    assert_eq!(
        check_adjudication_plan(&plan, PLAN_DIGEST, "sha256:source"),
        Err(EvaluationError::EvalPlanDigestMismatch)
    );
}

#[test]
fn every_candidate_playbook_adds_its_safety_cases_after_the_plan() {
    let profile = sample_profile();
    let plan = sample_eval_plan(&profile);
    let plan_cases = plan.cases.len();
    let plan_fixtures = plan.fixtures.len();
    let workload = evaluation_workload(plan.cases.clone(), plan.fixtures.clone(), &profile);
    assert_eq!(workload.cases.len(), plan_cases + 3 * profile.playbooks.len());
    assert_eq!(workload.fixtures.len(), plan_fixtures + 3 * profile.playbooks.len());
    assert_eq!(workload.cases[..plan_cases], plan.cases[..]);
    for case in &workload.cases[plan_cases..] {
        assert!(case.id.starts_with("__meetily_safety_"));
        assert_eq!(case.playbook_id, profile.playbooks[0].id);
    }
}

#[test]
fn the_run_loop_counts_calls_and_opens_the_circuit_after_three_failures() {
    let start = RunProgress { completed_calls: 0, consecutive_errors: 0 };
    let failed = GenerationEvent::Generated { failed: true };
    let (p1, s1) = run_step(start, failed);
    let (p2, s2) = run_step(p1, failed);
    let (p3, s3) = run_step(p2, failed);
    assert_eq!((s1, s2, s3), (RunStatus::Continue, RunStatus::Continue, RunStatus::ProviderCircuitOpen));
    assert_eq!(p3, RunProgress { completed_calls: 3, consecutive_errors: 3 });
    let (p4, s4) = run_step(p2, GenerationEvent::Generated { failed: false });
    assert_eq!((p4.consecutive_errors, s4), (0, RunStatus::Continue));
    assert_eq!(run_step(p2, GenerationEvent::Cancelled), (p2, RunStatus::Cancelled));
}

#[test]
fn observations_read_failures_of_the_candidate_only() {
    let facts = vec![
        RepetitionFacts {
            target: EvalTarget::Baseline,
            generation_failed: false,
            hard_passed: vec![false],
            semantic_passed: vec![Some(false)],
        },
        RepetitionFacts {
            target: EvalTarget::Candidate,
            generation_failed: false,
            hard_passed: vec![true, true],
            semantic_passed: vec![Some(true), None],
        },
    ];
    let o = observe(&facts, vec![7], RunStatus::Continue, false, false, true);
    assert!(!o.any_generation_error);
    assert!(!o.any_hard_failure);
    assert!(o.any_semantic_unresolved);
    assert!(!o.any_semantic_failure);
    assert_eq!(o.unconfirmed_removals, vec![7]);

    let mut failing = facts.clone();
    failing[1].hard_passed[1] = false;
    failing[1].semantic_passed[1] = Some(false);
    failing[0].generation_failed = true;
    let reasons = vec!["CAPABILITY_REMOVAL_UNCONFIRMED: x".to_string()];
    let a = observe_adjudication(&failing, true, &reasons, false, false, true);
    assert!(a.generation_error && a.hard_failure && a.semantic_failure && a.unconfirmed_removal);
    assert!(!a.semantic_unresolved);
}

#[test]
fn a_stored_repetition_is_judged_against_the_first_case_with_its_id() {
    let profile = interview_profile();
    let plan = interview_eval_plan(&profile);
    assert_eq!(case_for_repetition(&plan.cases, "biography-junior"), Some(0));
    assert_eq!(case_for_repetition(&plan.cases, "capability-gap-expert"), Some(17));
    assert_eq!(case_for_repetition(&plan.cases, "retired-case"), None);
}
