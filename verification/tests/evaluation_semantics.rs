use meeting_assistant::expert_profiles::evaluation::{
    planned_call_count, semantic_repetitions_are_inconsistent, unconfirmed_removals, EvalTarget,
    SemanticOutcome,
};
use meeting_assistant::expert_profiles::models::{EvalAssertions, EvalCase};

fn outcome(target: EvalTarget, case_id: &str, index: usize, passed: Option<bool>) -> SemanticOutcome {
    SemanticOutcome { target, case_id: case_id.to_string(), assertion_index: index, passed }
}

#[test]
fn agreeing_repetitions_are_consistent() {
    let outcomes = vec![
        outcome(EvalTarget::Candidate, "case-a", 0, Some(true)),
        outcome(EvalTarget::Candidate, "case-a", 0, Some(true)),
        outcome(EvalTarget::Candidate, "case-a", 0, None),
        outcome(EvalTarget::Candidate, "case-a", 1, Some(false)),
    ];
    assert!(!semantic_repetitions_are_inconsistent(&outcomes));
}

#[test]
fn a_pass_and_a_fail_of_one_assertion_disagree() {
    let outcomes = vec![
        outcome(EvalTarget::Candidate, "case-a", 0, Some(true)),
        outcome(EvalTarget::Baseline, "case-a", 0, Some(false)),
        outcome(EvalTarget::Candidate, "case-b", 0, Some(false)),
        outcome(EvalTarget::Candidate, "case-a", 0, Some(false)),
    ];
    assert!(semantic_repetitions_are_inconsistent(&outcomes));
}

#[test]
fn different_targets_cases_or_assertions_never_disagree() {
    let outcomes = vec![
        outcome(EvalTarget::Candidate, "case-a", 0, Some(true)),
        outcome(EvalTarget::Baseline, "case-a", 0, Some(false)),
        outcome(EvalTarget::Candidate, "case-b", 0, Some(false)),
        outcome(EvalTarget::Candidate, "case-a", 1, Some(false)),
    ];
    assert!(!semantic_repetitions_are_inconsistent(&outcomes));
    assert!(!semantic_repetitions_are_inconsistent(&Vec::new()));
}

#[test]
fn only_unconfirmed_removals_block_a_run() {
    assert_eq!(unconfirmed_removals(&vec![3, 1, 2], &vec![1]), vec![3, 2]);
    assert_eq!(unconfirmed_removals(&vec![3, 1], &vec![1, 3]), Vec::<u128>::new());
    assert_eq!(unconfirmed_removals(&Vec::new(), &vec![5]), Vec::<u128>::new());
}

fn case(playbook_id: u128) -> EvalCase {
    EvalCase {
        id: format!("case-{playbook_id}"),
        fixture_id: "fixture".to_string(),
        playbook_id,
        assertions: EvalAssertions { hard: Vec::new(), semantic: Vec::new() },
    }
}

#[test]
fn cases_run_for_the_baseline_only_when_it_has_their_playbook() {
    let cases = vec![case(1), case(2), case(1)];
    assert_eq!(planned_call_count(&cases, &vec![1], 3), 15);
    assert_eq!(planned_call_count(&cases, &Vec::new(), 3), 9);
    assert_eq!(planned_call_count(&cases, &vec![1, 2], 1), 6);
    assert_eq!(planned_call_count(&Vec::new(), &vec![1], 5), 0);
}
