use meeting_assistant::live_assist::harness_workload::{check_relative_private_path, check_resolved_private_path};
use meeting_assistant::live_assist::harness_workload::{latest_replay_answers, ReplayRecord};
use meeting_assistant::live_assist::harness_workload::{
    check_authority_identity, check_authority_trial_cases, check_authority_workload_header,
    check_private_harness_fixtures, check_private_harness_header, AuthorityTrialCase,
    PrivateHarnessFixture,
};
use meeting_assistant::live_assist::voice_harness::HumanAuthorityAdjudication;

fn fixture(id: &str, question: &str, titles: &[&str]) -> PrivateHarnessFixture {
    PrivateHarnessFixture {
        id: id.to_string(),
        question: question.to_string(),
        required_positive_fact: None,
        requires_single_story_source: false,
        required_retrieved_titles: titles.iter().map(|t| t.to_string()).collect(),
    }
}

fn trial(id: &str, answer: &str, captured: bool) -> AuthorityTrialCase {
    AuthorityTrialCase {
        id: id.to_string(),
        answer: answer.to_string(),
        captured_from_live_assist: captured,
        human_adjudication: HumanAuthorityAdjudication::WarningExpected,
    }
}

fn record_titles() -> Vec<String> {
    vec![
        "2019 - Documented backlog response".to_string(),
        "Procurement recommendation boundary".to_string(),
    ]
}

#[test]
fn private_workload_header_needs_known_schema_and_fixtures() {
    assert_eq!(check_private_harness_header(1, 3), Ok(()));
    assert_eq!(
        check_private_harness_header(2, 3),
        Err("unsupported private harness workload schema version 2".to_string())
    );
    assert_eq!(
        check_private_harness_header(1, 0),
        Err("private harness workload has no fixtures".to_string())
    );
}

#[test]
fn private_fixture_titles_match_record_title_suffixes() {
    let fixtures = vec![
        fixture("a", "What happened?", &["Documented backlog response"]),
        fixture("b", "Who approved it?", &["recommendation boundary", "Procurement recommendation boundary"]),
    ];
    assert_eq!(check_private_harness_fixtures(&fixtures, &record_titles()), Ok(()));
}

#[test]
fn private_fixture_with_unknown_title_is_named() {
    let fixtures = vec![
        fixture("a", "What happened?", &["Documented backlog response"]),
        fixture("b", "Who approved it?", &["Budget ownership", "Another unknown"]),
    ];
    assert_eq!(
        check_private_harness_fixtures(&fixtures, &record_titles()),
        Err("private harness fixture 'b' names an unknown source title 'Budget ownership'".to_string())
    );
}

#[test]
fn private_fixture_needs_id_and_question() {
    let fixtures = vec![fixture("  ", "Question?", &[]), fixture("b", "x", &["missing"])];
    assert_eq!(
        check_private_harness_fixtures(&fixtures, &record_titles()),
        Err("private harness fixture id and question must be nonempty".to_string())
    );
}

#[test]
fn authority_header_needs_known_schema_and_enough_cases() {
    assert_eq!(check_authority_workload_header(1, 5), Ok(()));
    assert_eq!(
        check_authority_workload_header(3, 5),
        Err("unsupported authority trial workload schema version 3".to_string())
    );
    assert_eq!(
        check_authority_workload_header(1, 4),
        Err("authority trial workload needs at least 5 cases".to_string())
    );
}

#[test]
fn authority_identity_needs_constraints_and_the_expected_digest() {
    assert_eq!(check_authority_identity(2, "sha256:aa", "sha256:aa"), Ok(()));
    assert_eq!(
        check_authority_identity(0, "sha256:aa", "sha256:aa"),
        Err("authority trial identity has no enrolled constraints".to_string())
    );
    assert_eq!(
        check_authority_identity(1, "sha256:bb", "sha256:aa"),
        Err("authority trial identity hash mismatch: expected sha256:aa, loaded sha256:bb".to_string())
    );
}

#[test]
fn authority_cases_are_checked_in_order() {
    let good = vec![trial("one", "answer", true), trial("two", "answer", true)];
    assert_eq!(check_authority_trial_cases(&good), Ok(()));

    let blank = vec![trial("one", "answer", true), trial("two", " \n", true)];
    assert_eq!(
        check_authority_trial_cases(&blank),
        Err("authority trial case id and answer must be nonempty".to_string())
    );

    let uncaptured = vec![trial("one", "answer", false), trial("one", "answer", true)];
    assert_eq!(
        check_authority_trial_cases(&uncaptured),
        Err("authority trial case 'one' was not marked as captured from Live Assist".to_string())
    );

    let duplicate = vec![trial("one", "a", true), trial("two", "b", true), trial("one", "c", true)];
    assert_eq!(
        check_authority_trial_cases(&duplicate),
        Err("duplicate authority trial case id 'one'".to_string())
    );
}

const PROMPT_VERSION: &str = "answer-system-v9";

fn replay_records(input: &str) -> Vec<ReplayRecord> {
    input
        .lines()
        .filter_map(|line| serde_json::from_str::<serde_json::Value>(line).ok())
        .map(|value| {
            let field = |name: &str| value.get(name).and_then(|v| v.as_str()).map(str::to_string);
            ReplayRecord {
                harness_case: field("harness_case"),
                prompt_template_version: field("prompt_template_version"),
                fixture_id: field("fixture_id"),
                answer: field("answer"),
            }
        })
        .collect()
}

fn answer_for<'a>(answers: &'a [(String, String)], fixture: &str) -> Option<&'a str> {
    answers.iter().find(|(id, _)| id == fixture).map(|(_, a)| a.as_str())
}

#[test]
fn replay_reader_selects_the_latest_answer_for_the_requested_workload() {
    let input = format!(
        "{{\"harness_case\":\"unsupported_interview_experience\",\"fixture_id\":\"budget-ownership-absent\",\"prompt_template_version\":\"old\",\"answer\":\"old answer\"}}\n{{\"harness_case\":\"unsupported_interview_experience\",\"fixture_id\":\"budget-ownership-absent\",\"prompt_template_version\":\"{}\",\"answer\":\"first v9 answer\"}}\n{{\"harness_case\":\"real_interview_profile_safety\",\"fixture_id\":\"real-gap\",\"prompt_template_version\":\"{}\",\"answer\":\"private answer\"}}\n{{\"harness_case\":\"unsupported_interview_experience\",\"fixture_id\":\"budget-ownership-absent\",\"prompt_template_version\":\"{}\",\"answer\":\"latest v9 answer\"}}\n",
        PROMPT_VERSION, PROMPT_VERSION, PROMPT_VERSION
    );
    let records = replay_records(&input);
    let answers = latest_replay_answers(&records, "unsupported_interview_experience", PROMPT_VERSION);
    assert_eq!(answers.len(), 1);
    assert_eq!(answer_for(&answers, "budget-ownership-absent").unwrap(), "latest v9 answer");

    let private_answers = latest_replay_answers(&records, "real_interview_profile_safety", PROMPT_VERSION);
    assert_eq!(private_answers.len(), 1);
    assert_eq!(answer_for(&private_answers, "real-gap").unwrap(), "private answer");
}

#[test]
fn replay_skips_lines_without_fixture_or_answer_and_keeps_one_entry_per_fixture() {
    let record = |case: &str, fixture: Option<&str>, answer: Option<&str>| ReplayRecord {
        harness_case: Some(case.to_string()),
        prompt_template_version: Some(PROMPT_VERSION.to_string()),
        fixture_id: fixture.map(str::to_string),
        answer: answer.map(str::to_string),
    };
    let records = vec![
        record("c", Some("a"), Some("one")),
        record("c", Some("b"), Some("two")),
        record("c", None, Some("orphan")),
        record("c", Some("a"), None),
        record("c", Some("a"), Some("three")),
    ];
    let answers = latest_replay_answers(&records, "c", PROMPT_VERSION);
    assert_eq!(answers, vec![("a".to_string(), "three".to_string()), ("b".to_string(), "two".to_string())]);
    assert!(latest_replay_answers(&records, "other", PROMPT_VERSION).is_empty());
}

#[test]
fn workload_paths_must_stay_relative_and_inside_the_root() {
    let refused = Err("private harness paths must be safe, nonempty, and relative".to_string());
    assert_eq!(check_relative_private_path("../private-context.json"), refused);
    assert_eq!(check_relative_private_path("context/../../x.json"), refused);
    assert_eq!(check_relative_private_path("/etc/passwd"), refused);
    assert_eq!(check_relative_private_path(""), refused);
    assert_eq!(check_relative_private_path(".."), refused);
    assert_eq!(check_relative_private_path("context/index.json"), Ok(()));
    assert_eq!(check_relative_private_path("./a..b/..c"), Ok(()));

    let root: Vec<String> = vec!["/".to_string(), "corpus".to_string()];
    let inside: Vec<String> = vec!["/".to_string(), "corpus".to_string(), "index.json".to_string()];
    let outside: Vec<String> = vec!["/".to_string(), "other".to_string(), "index.json".to_string()];
    assert_eq!(check_resolved_private_path("index.json", Some(&inside), &root), Ok(()));
    assert_eq!(
        check_resolved_private_path("link.json", Some(&outside), &root),
        Err("private harness path 'link.json' escapes its corpus root".to_string())
    );
    assert_eq!(
        check_resolved_private_path("missing.json", None, &root),
        Err("private harness path 'missing.json' does not exist".to_string())
    );
}
