use meeting_assistant::live_assist::models::{
    AssistDataClass, AssistExchange, AssistExchangeKind, AssistExchangeStatus, AssistTimings,
};
use meeting_assistant::live_assist::provider::provider_label;
use meeting_assistant::live_assist::session::{
    ActiveOperation, ActiveOperationKind, LiveAssistCore, LiveAssistError, QuestionStep,
};

fn transcribing(id: u128, generation_id: u64, data_class: AssistDataClass) -> AssistExchange {
    AssistExchange {
        id,
        ordinal: 1,
        kind: AssistExchangeKind::NewQuestion,
        parent_exchange_id: None,
        context_generation: 3,
        data_class,
        status: AssistExchangeStatus::Transcribing,
        question: String::new(),
        answer: String::new(),
        answer_word_count: None,
        answer_format_warnings: Vec::new(),
        dismissed_authority_rule_ids: Vec::new(),
        detail: String::new(),
        detail_status: None,
        detail_truncated: false,
        detail_error: None,
        error: None,
        profile_id: Some(40),
        profile_version_hash: Some("sha256:profile".to_string()),
        playbook_id: Some(41),
        identity_id: None,
        identity_version_hash: None,
        generation_id,
        build_revision: String::new(),
        created_at: String::new(),
        timings: AssistTimings::default(),
    }
}

fn answer_operation(exchange_id: u128, generation_id: u64) -> ActiveOperation {
    ActiveOperation { exchange_id, generation_id, kind: ActiveOperationKind::Answer }
}

#[test]
fn a_standard_question_goes_to_the_provider_with_its_parent() {
    let mut core = LiveAssistCore::default();
    let mut parent = transcribing(1, 1, AssistDataClass::Standard);
    parent.status = AssistExchangeStatus::Complete;
    parent.question = "When is delivery?".to_string();
    let mut child = transcribing(2, 4, AssistDataClass::Standard);
    child.parent_exchange_id = Some(1);
    core.exchanges = vec![parent.clone(), child];
    core.active_operation = Some(answer_operation(2, 4));

    let step = core
        .record_question(2, 4, "And the budget?".to_string(), 320)
        .unwrap();
    match step {
        QuestionStep::Request(request) => {
            assert_eq!(request.data_class, AssistDataClass::Standard);
            assert_eq!(request.context_generation, 3);
            assert_eq!(request.profile, Some((40, "sha256:profile".to_string(), 41)));
            assert_eq!(request.parent, Some(parent));
        }
        other => panic!("unexpected step {other:?}"),
    }
    assert_eq!(core.exchanges[1].question, "And the budget?");
    assert_eq!(core.exchanges[1].status, AssistExchangeStatus::Requesting);
    assert_eq!(core.exchanges[1].timings.transcription_ms, Some(320));
    assert_eq!(core.active_operation, Some(answer_operation(2, 4)));
}

#[test]
fn a_private_question_stops_at_its_transcript() {
    let mut core = LiveAssistCore::default();
    core.exchanges = vec![transcribing(5, 2, AssistDataClass::Private)];
    core.active_operation = Some(answer_operation(5, 2));
    assert_eq!(
        core.record_question(5, 2, "Private thought".to_string(), 90),
        Ok(QuestionStep::TranscriptOnly)
    );
    assert_eq!(core.exchanges[0].status, AssistExchangeStatus::TranscriptOnly);
    assert_eq!(core.exchanges[0].question, "Private thought");
    assert_eq!(core.active_operation, None);
}

#[test]
fn a_question_for_an_old_generation_changes_nothing() {
    let mut core = LiveAssistCore::default();
    core.exchanges = vec![transcribing(5, 2, AssistDataClass::Standard)];
    assert_eq!(core.record_question(5, 1, "Late".to_string(), 10), Ok(QuestionStep::Superseded));
    assert_eq!(core.exchanges[0].question, "");
    assert_eq!(core.record_question(5, 2, "   ".to_string(), 10), Err(LiveAssistError::NoSpeech));
    assert_eq!(
        core.record_question(6, 2, "Who?".to_string(), 10),
        Err(LiveAssistError::ExchangeNotFound)
    );
}

#[test]
fn streamed_answer_pieces_accumulate_and_complete() {
    let mut core = LiveAssistCore::default();
    let mut e = transcribing(8, 3, AssistDataClass::Standard);
    e.status = AssistExchangeStatus::Requesting;
    core.exchanges = vec![e];
    core.active_operation = Some(answer_operation(8, 3));

    assert_eq!(core.complete_answer(8, 3, 50), Err(LiveAssistError::EmptyAnswer));
    core.append_answer_delta(8, 3, "Say ", 120);
    core.append_answer_delta(8, 3, "Friday.", 200);
    core.append_answer_delta(8, 2, " (stale)", 250);
    assert_eq!(core.exchanges[0].answer, "Say Friday.");
    assert_eq!(core.exchanges[0].status, AssistExchangeStatus::Streaming);
    assert_eq!(core.exchanges[0].timings.request_to_first_token_ms, Some(120));

    assert_eq!(core.complete_answer(8, 3, 900), Ok(()));
    assert_eq!(core.exchanges[0].status, AssistExchangeStatus::Complete);
    assert_eq!(core.exchanges[0].timings.request_to_complete_ms, Some(900));
    assert_eq!(core.active_operation, None);
    assert_eq!(core.complete_answer(9, 3, 1), Err(LiveAssistError::ExchangeNotFound));
}

#[test]
fn an_interrupted_answer_takes_no_more_pieces_and_no_failure() {
    let mut core = LiveAssistCore::default();
    let mut e = transcribing(8, 3, AssistDataClass::Standard);
    e.status = AssistExchangeStatus::Interrupted;
    core.exchanges = vec![e];
    core.active_operation = Some(answer_operation(8, 3));
    core.append_answer_delta(8, 3, "late", 10);
    assert_eq!(core.exchanges[0].answer, "");
    core.fail_exchange(8, 3, "provider failed".to_string());
    assert_eq!(core.exchanges[0].status, AssistExchangeStatus::Interrupted);
    assert_eq!(core.exchanges[0].error, None);
    assert_eq!(core.active_operation, None);
}

#[test]
fn a_failed_answer_keeps_its_message() {
    let mut core = LiveAssistCore::default();
    core.exchanges = vec![transcribing(8, 3, AssistDataClass::Standard)];
    core.active_operation = Some(answer_operation(8, 3));
    core.fail_exchange(8, 3, "No speech was recognized in the captured turn".to_string());
    assert_eq!(core.exchanges[0].status, AssistExchangeStatus::Failed);
    assert_eq!(
        core.exchanges[0].error.as_deref(),
        Some("No speech was recognized in the captured turn")
    );
    assert_eq!(core.active_operation, None);
}

#[test]
fn detail_pieces_accumulate_complete_and_fail() {
    let mut core = LiveAssistCore::default();
    let mut e = transcribing(8, 6, AssistDataClass::Standard);
    e.status = AssistExchangeStatus::Complete;
    e.detail_status = Some(AssistExchangeStatus::Requesting);
    core.exchanges = vec![e];
    let detail_op = ActiveOperation { exchange_id: 8, generation_id: 6, kind: ActiveOperationKind::Detail };
    core.active_operation = Some(detail_op);

    assert_eq!(core.complete_detail(8, 6), Err(LiveAssistError::EmptyDetail));
    core.append_detail_delta(8, 6, "Caveat: ");
    core.append_detail_delta(8, 6, "shipping.");
    core.append_detail_delta(8, 5, "stale");
    assert_eq!(core.exchanges[0].detail, "Caveat: shipping.");
    assert_eq!(core.exchanges[0].detail_status, Some(AssistExchangeStatus::Streaming));
    assert_eq!(core.complete_detail(8, 6), Ok(()));
    assert_eq!(core.exchanges[0].detail_status, Some(AssistExchangeStatus::Complete));
    assert_eq!(core.active_operation, None);

    core.active_operation = Some(detail_op);
    core.fail_detail(8, 6, "stream error".to_string());
    assert_eq!(core.exchanges[0].detail_status, Some(AssistExchangeStatus::Failed));
    assert_eq!(core.exchanges[0].detail_error.as_deref(), Some("stream error"));
    assert_eq!(core.active_operation, None);
}

#[test]
fn disarming_interrupts_capture_and_generation() {
    let mut core = LiveAssistCore::default();
    core.armed = true;
    let mut capturing = transcribing(1, 1, AssistDataClass::Private);
    capturing.status = AssistExchangeStatus::Capturing;
    let mut streaming = transcribing(2, 2, AssistDataClass::Standard);
    streaming.status = AssistExchangeStatus::Streaming;
    core.exchanges = vec![capturing, streaming];
    core.active_capture = Some(1);
    core.active_operation = Some(answer_operation(2, 2));

    assert_eq!(core.disarm(), Some(answer_operation(2, 2)));
    assert!(!core.armed);
    assert_eq!(core.active_capture, None);
    assert_eq!(core.active_operation, None);
    assert_eq!(core.exchanges[0].status, AssistExchangeStatus::Interrupted);
    assert_eq!(core.exchanges[1].status, AssistExchangeStatus::Interrupted);
}

#[test]
fn provider_is_named_by_its_endpoint_host() {
    assert_eq!(provider_label("https://api.deepseek.com/chat/completions"), "api.deepseek.com");
    assert_eq!(provider_label("not a url"), "configured provider");
}
