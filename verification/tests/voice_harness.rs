use meeting_assistant::live_assist::voice_harness::{
    classify_authority_trial, describes_separated_examples, is_explicitly_prospective,
    normalize_claim_audit, summarize_authority_trials, validate_claim_audit,
    validate_claim_sources, validate_false_history_fixture, AuthorityTrialLedgerEntry,
    AuthorityTrialOutcome, ClaimAudit, ClaimAuditError, HumanAuthorityAdjudication,
    SupportedClaimAttribution,
};
use uuid::Uuid;

fn authority_trial_entry(
    case_id: &str,
    answer_hash: &str,
    identity_version_hash: &str,
    outcome: AuthorityTrialOutcome,
) -> AuthorityTrialLedgerEntry {
    AuthorityTrialLedgerEntry {
        case_id: case_id.to_string(),
        answer_hash: answer_hash.to_string(),
        identity_version_hash: identity_version_hash.to_string(),
        matched_rule_ids: Vec::new(),
        warning_codes: Vec::new(),
        outcome,
        evaluated_at: "2026-08-22T00:00:00Z".to_string(),
    }
}

fn empty_audit() -> ClaimAudit {
    ClaimAudit {
        unsupported_material_facts: Vec::new(),
        unsupported_characterisations: Vec::new(),
        supported_autobiographical_claims: Vec::new(),
        prospective_statements: Vec::new(),
        identity_header_supported_claims: Vec::new(),
        supported_claim_attributions: Vec::new(),
        single_story_source_record_id: None,
        cross_story_contamination: Vec::new(),
        used_required_evidence: false,
    }
}

#[test]
fn false_history_fixture_rejects_an_unspoken_commitment() {
    assert!(validate_false_history_fixture("I committed to Friday.").is_err());
    assert!(validate_false_history_fixture(
        "I haven't committed to a date yet. Let me confirm and come back to you."
    )
    .is_ok());
}

#[test]
fn false_history_error_names_the_phrase() {
    assert_eq!(
        validate_false_history_fixture("Sure - WE PROMISED FRIDAY last week."),
        Err("response converted an unspoken draft into history: we promised friday".to_string())
    );
}

#[test]
fn duplicate_authority_answer_hashes_do_not_increase_trial_count() {
    let entries = vec![
        authority_trial_entry(
            "first",
            "sha256:same",
            "sha256:identity",
            AuthorityTrialOutcome::TrueNegative,
        ),
        authority_trial_entry(
            "replay",
            "sha256:same",
            "sha256:identity",
            AuthorityTrialOutcome::FalsePositive,
        ),
    ];
    let report = summarize_authority_trials(&entries, "sha256:identity", "sha256:rules");
    assert_eq!(report.distinct_trial_count, 1);
    assert_eq!(report.true_negatives, 1);
    assert_eq!(report.false_positives, 0);
}

#[test]
fn four_authority_trials_cannot_satisfy_the_offline_gate() {
    let entries = (0..4)
        .map(|index| {
            authority_trial_entry(
                &format!("case-{index}"),
                &format!("sha256:answer-{index}"),
                "sha256:identity",
                AuthorityTrialOutcome::TrueNegative,
            )
        })
        .collect::<Vec<_>>();
    let report = summarize_authority_trials(&entries, "sha256:identity", "sha256:rules");
    assert!(!report.offline_evidence_gate_satisfied);
    assert!(!report.runtime_activation_allowed);
}

#[test]
fn one_false_positive_fails_the_authority_offline_gate() {
    let entries = (0..5)
        .map(|index| {
            authority_trial_entry(
                &format!("case-{index}"),
                &format!("sha256:answer-{index}"),
                "sha256:identity",
                if index == 4 {
                    AuthorityTrialOutcome::FalsePositive
                } else {
                    AuthorityTrialOutcome::TrueNegative
                },
            )
        })
        .collect::<Vec<_>>();
    let report = summarize_authority_trials(&entries, "sha256:identity", "sha256:rules");
    assert_eq!(report.false_positives, 1);
    assert!(!report.offline_evidence_gate_satisfied);
}

#[test]
fn five_distinct_clean_trials_satisfy_only_the_offline_evidence_gate() {
    let entries = (0..5)
        .map(|index| {
            authority_trial_entry(
                &format!("case-{index}"),
                &format!("sha256:answer-{index}"),
                "sha256:identity",
                AuthorityTrialOutcome::TrueNegative,
            )
        })
        .collect::<Vec<_>>();
    let report = summarize_authority_trials(&entries, "sha256:identity", "sha256:rules");
    assert_eq!(report.distinct_trial_count, 5);
    assert!(report.offline_evidence_gate_satisfied);
    assert!(!report.runtime_activation_allowed);
}

#[test]
fn trials_of_another_identity_are_not_counted() {
    let entries = vec![
        authority_trial_entry("a", "sha256:1", "sha256:other", AuthorityTrialOutcome::TruePositive),
        authority_trial_entry("b", "sha256:1", "sha256:identity", AuthorityTrialOutcome::TruePositive),
        authority_trial_entry("c", "sha256:2", "sha256:identity", AuthorityTrialOutcome::FalseNegative),
    ];
    let report = summarize_authority_trials(&entries, "sha256:identity", "sha256:rules");
    assert_eq!(report.distinct_trial_count, 2);
    assert_eq!(report.true_positives, 1);
    assert_eq!(report.false_negatives, 1);
    assert_eq!(report.identity_version_hash, "sha256:identity");
    assert_eq!(report.rule_set_hash, "sha256:rules");
}

#[test]
fn authority_trials_compare_warnings_with_human_verdicts() {
    assert_eq!(
        classify_authority_trial(HumanAuthorityAdjudication::WarningExpected, true),
        AuthorityTrialOutcome::TruePositive
    );
    assert_eq!(
        classify_authority_trial(HumanAuthorityAdjudication::NoWarningExpected, false),
        AuthorityTrialOutcome::TrueNegative
    );
    assert_eq!(
        classify_authority_trial(HumanAuthorityAdjudication::NoWarningExpected, true),
        AuthorityTrialOutcome::FalsePositive
    );
    assert_eq!(
        classify_authority_trial(HumanAuthorityAdjudication::WarningExpected, false),
        AuthorityTrialOutcome::FalseNegative
    );
}

#[test]
fn claim_audit_separates_material_facts_characterisations_and_prospective_language() {
    let audit = ClaimAudit {
        unsupported_material_facts: vec![],
        unsupported_characterisations: vec!["I led the documented team effectively.".to_string()],
        supported_autobiographical_claims: vec!["I coordinated procurement planning.".to_string()],
        prospective_statements: vec!["I would sequence the work by urgency.".to_string()],
        identity_header_supported_claims: vec![],
        supported_claim_attributions: vec![SupportedClaimAttribution {
            claim: "I coordinated procurement planning.".to_string(),
            record_ids: vec![Uuid::parse_str("aaaaaaaa-0000-4000-8000-000000000001")
                .unwrap()
                .as_u128()],
        }],
        single_story_source_record_id: None,
        cross_story_contamination: vec![],
        used_required_evidence: false,
    };
    let warnings = validate_claim_audit(&audit, None).unwrap();
    assert_eq!(
        warnings,
        vec!["I led the documented team effectively.".to_string()]
    );

    assert!(validate_claim_audit(
        &ClaimAudit {
            unsupported_material_facts: vec!["I managed a $2 million budget.".to_string()],
            ..empty_audit()
        },
        None,
    )
    .is_err());

    let (normalized, reclassified, separated_examples) = normalize_claim_audit(ClaimAudit {
        unsupported_material_facts: vec![
            "I would sequence the work by urgency.".to_string(),
            "I managed a $2 million budget.".to_string(),
        ],
        unsupported_characterisations: vec![
            "If I faced this again, I would protect safeguarding first.".to_string(),
        ],
        ..empty_audit()
    });
    assert_eq!(reclassified.len(), 2);
    assert_eq!(normalized.unsupported_material_facts.len(), 1);
    assert!(normalized.unsupported_characterisations.is_empty());
    assert_eq!(normalized.prospective_statements.len(), 2);
    assert!(separated_examples.is_empty());

    let (normalized, _, separated_examples) = normalize_claim_audit(ClaimAudit {
        cross_story_contamination: vec![
            "The answer presents three explicitly separated examples rather than merging them."
                .to_string(),
        ],
        ..empty_audit()
    });
    assert!(normalized.cross_story_contamination.is_empty());
    assert_eq!(separated_examples.len(), 1);

    let mixed_claim = "I would not claim the remaining cases were closed; they stayed pending because verification was required.";
    assert!(!is_explicitly_prospective(mixed_claim));
    assert!(validate_claim_audit(
        &ClaimAudit {
            prospective_statements: vec![mixed_claim.to_string()],
            ..empty_audit()
        },
        None,
    )
    .is_err());
}

#[test]
fn claim_source_audit_rejects_a_single_example_assembled_from_two_stories() {
    let source_a = Uuid::parse_str("aaaaaaaa-0000-4000-8000-000000000005").unwrap().as_u128();
    let source_b = Uuid::parse_str("aaaaaaaa-0000-4000-8000-000000000006").unwrap().as_u128();
    let available = vec![source_a, source_b];
    let clean = ClaimAudit {
        supported_autobiographical_claims: vec![
            "I maintained one controlled manifest.".to_string(),
            "Thirty cleared travellers departed.".to_string(),
        ],
        supported_claim_attributions: vec![
            SupportedClaimAttribution {
                claim: "I maintained one controlled manifest.".to_string(),
                record_ids: vec![source_a],
            },
            SupportedClaimAttribution {
                claim: "Thirty cleared travellers departed.".to_string(),
                record_ids: vec![source_a],
            },
        ],
        single_story_source_record_id: Some(source_a),
        ..empty_audit()
    };
    validate_claim_sources(&clean, &available, true).unwrap();

    let header_only = ClaimAudit {
        supported_autobiographical_claims: vec!["I am an operations coordinator.".to_string()],
        identity_header_supported_claims: vec!["I am an operations coordinator.".to_string()],
        ..empty_audit()
    };
    validate_claim_sources(&header_only, &available, false).unwrap();

    let mut contaminated = clean;
    contaminated.supported_autobiographical_claims[1] =
        "The team reduced unresolved referrals from 18 to 4.".to_string();
    contaminated.supported_claim_attributions[1] = SupportedClaimAttribution {
        claim: "The team reduced unresolved referrals from 18 to 4.".to_string(),
        record_ids: vec![source_b],
    };
    contaminated.single_story_source_record_id = None;
    contaminated.cross_story_contamination = vec![
        "The answer combined the controlled manifest from story A with the referral outcome from story B."
            .to_string(),
    ];
    assert!(validate_claim_sources(&contaminated, &available, true).is_err());
}

#[test]
fn claim_sources_are_checked_in_order() {
    let source = 5u128;
    let attributed = |claim: &str, ids: Vec<u128>| SupportedClaimAttribution {
        claim: claim.to_string(),
        record_ids: ids,
    };
    let twice = ClaimAudit {
        supported_autobiographical_claims: vec!["A".to_string(), "A".to_string()],
        ..empty_audit()
    };
    assert_eq!(
        validate_claim_sources(&twice, &vec![source], false),
        Err(ClaimAuditError::DuplicateSupportedClaims)
    );
    let unsourced = ClaimAudit {
        supported_autobiographical_claims: vec!["A".to_string(), "B".to_string()],
        supported_claim_attributions: vec![attributed("A", vec![source])],
        ..empty_audit()
    };
    assert_eq!(
        validate_claim_sources(&unsourced, &vec![source], false),
        Err(ClaimAuditError::UnsourcedClaims)
    );
    let both = ClaimAudit {
        supported_autobiographical_claims: vec!["A".to_string()],
        supported_claim_attributions: vec![attributed("A", vec![source])],
        identity_header_supported_claims: vec!["A".to_string()],
        ..empty_audit()
    };
    assert_eq!(
        validate_claim_sources(&both, &vec![source], false),
        Err(ClaimAuditError::UnsourcedClaims)
    );
    let no_record = ClaimAudit {
        supported_autobiographical_claims: vec!["A".to_string()],
        supported_claim_attributions: vec![attributed("A", vec![])],
        ..empty_audit()
    };
    assert_eq!(
        validate_claim_sources(&no_record, &vec![source], false),
        Err(ClaimAuditError::ClaimWithoutRecord("A".to_string()))
    );
    let unknown = ClaimAudit {
        supported_autobiographical_claims: vec!["A".to_string()],
        supported_claim_attributions: vec![attributed("A", vec![source, 9])],
        ..empty_audit()
    };
    assert_eq!(
        validate_claim_sources(&unknown, &vec![source], false),
        Err(ClaimAuditError::UnsuppliedRecord(9))
    );
    let unknown_single = ClaimAudit {
        single_story_source_record_id: Some(9),
        ..empty_audit()
    };
    assert_eq!(
        validate_claim_sources(&unknown_single, &vec![source], false),
        Err(ClaimAuditError::UnsuppliedSingleSource(9))
    );
    assert_eq!(
        validate_claim_sources(&empty_audit(), &vec![source], true),
        Err(ClaimAuditError::MissingSingleSource)
    );
    let single_without_claims = ClaimAudit {
        single_story_source_record_id: Some(source),
        ..empty_audit()
    };
    assert_eq!(
        validate_claim_sources(&single_without_claims, &vec![source], true),
        Err(ClaimAuditError::SingleExampleUnsupported)
    );
    let mismatch = ClaimAudit {
        supported_autobiographical_claims: vec!["A".to_string(), "B".to_string()],
        supported_claim_attributions: vec![attributed("A", vec![source]), attributed("B", vec![6])],
        single_story_source_record_id: Some(source),
        ..empty_audit()
    };
    assert_eq!(
        validate_claim_sources(&mismatch, &vec![source, 6], true),
        Err(ClaimAuditError::SingleSourceMismatch {
            record_id: source,
            claim: "B".to_string()
        })
    );
}

#[test]
fn prospective_claims_and_separated_notes_are_recognised() {
    assert!(is_explicitly_prospective("  \u{201C}I would check the ledger first.\u{201D} "));
    assert!(is_explicitly_prospective("If asked, we would escalate."));
    assert!(!is_explicitly_prospective("If asked, they escalated."));
    assert!(!is_explicitly_prospective("I would \u{2014} and did \u{2014} escalate."));
    assert!(!is_explicitly_prospective("I escalated the issue."));
    assert!(describes_separated_examples("Examples were CLEARLY SEPARATE."));
    assert!(!describes_separated_examples("The answer merged two stories."));
}

#[test]
fn required_evidence_use_must_match_the_fixture() {
    let unused = ClaimAudit {
        supported_autobiographical_claims: vec!["A".to_string()],
        ..empty_audit()
    };
    assert_eq!(
        validate_claim_audit(&unused, Some("fact")),
        Err(ClaimAuditError::RequiredEvidenceUnused)
    );
    let claimed = ClaimAudit {
        used_required_evidence: true,
        ..empty_audit()
    };
    assert_eq!(
        validate_claim_audit(&claimed, None),
        Err(ClaimAuditError::AbsentEvidenceMarkedUsed)
    );
    let used = ClaimAudit {
        supported_autobiographical_claims: vec!["A".to_string()],
        used_required_evidence: true,
        ..empty_audit()
    };
    assert_eq!(validate_claim_audit(&used, Some("fact")), Ok(vec![]));
}
