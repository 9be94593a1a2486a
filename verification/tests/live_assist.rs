use meeting_assistant::live_assist::capture::{
    capture_marker, capture_ms, clip_start_offset, ring_capacity, CaptureError,
};
use meeting_assistant::live_assist::models::{
    AssistDataClass, AssistExchange, AssistExchangeKind, AssistExchangeStatus, AssistTimings,
};
use meeting_assistant::live_assist::provider::{
    classify_completion, is_deepseek_endpoint, is_openai_endpoint, request_body,
    sanitize_provider_error, AssistMessage, AssistProviderConfig, SseParser, StreamCompletion,
    DEFAULT_ENDPOINT, DEFAULT_MODEL,
};
use meeting_assistant::live_assist::provider_settings::{
    configuration_hash, validate_endpoint, ProviderRecord,
};
use meeting_assistant::live_assist::session::{
    build_answer_messages, capture_parent, validate_cloud_parent, ActiveOperation,
    ActiveOperationKind, LiveAssistCore, LiveAssistError,
};
use uuid::Uuid;

fn exchange(id: u128, generation: u64, data_class: AssistDataClass) -> AssistExchange {
    AssistExchange {
        id,
        ordinal: 1,
        kind: AssistExchangeKind::NewQuestion,
        parent_exchange_id: None,
        context_generation: generation,
        data_class,
        status: AssistExchangeStatus::Complete,
        question: "What is the delivery date?".to_string(),
        answer: "The current target is Friday.".to_string(),
        answer_word_count: None,
        answer_format_warnings: Vec::new(),
        dismissed_authority_rule_ids: Vec::new(),
        detail: String::new(),
        detail_status: None,
        detail_truncated: false,
        detail_error: None,
        error: None,
        profile_id: None,
        profile_version_hash: None,
        playbook_id: None,
        identity_id: None,
        identity_version_hash: None,
        generation_id: 1,
        build_revision: String::new(),
        created_at: String::new(),
        timings: AssistTimings::default(),
    }
}

#[test]
fn sse_parser_handles_split_chunks_without_silently_dropping_data() {
    let mut parser = SseParser::default();
    assert!(parser.push(b"data: {\"cho").unwrap().is_empty());
    assert_eq!(
        parser.push(b"ices\":[]}\n\ndata: [DONE]\n").unwrap(),
        ["{\"choices\":[]}", "[DONE]"]
    );
}

#[test]
fn incomplete_terminal_line_is_still_parsed() {
    let mut parser = SseParser::default();
    assert!(parser.push(b"data: [DONE]").unwrap().is_empty());
    assert_eq!(parser.finish().unwrap(), ["[DONE]"]);
}

#[test]
fn openai_endpoint_uses_current_completion_limit_shape() {
    assert!(is_openai_endpoint(
        "https://api.openai.com/v1/chat/completions"
    ));
    assert!(!is_openai_endpoint(DEFAULT_ENDPOINT));
    assert!(!is_openai_endpoint(
        "http://localhost:11434/v1/chat/completions"
    ));
}

#[test]
fn kimi_k3_uses_low_reasoning_without_unsupported_sampling_parameters() {
    let config = AssistProviderConfig {
        endpoint: "https://api.moonshot.ai/v1/chat/completions".to_string(),
        api_key: "test-key".to_string(),
        model: "kimi-k3".to_string(),
    };
    let messages = vec![AssistMessage {
        role: "user",
        content: "How do you approach budgeting?".to_string(),
    }];

    let body: serde_json::Value =
        serde_json::from_str(&request_body(&config, &messages, 520)).unwrap();

    assert_eq!(body["max_completion_tokens"], 1_544);
    assert_eq!(body["reasoning_effort"], "low");
    assert!(body.get("max_tokens").is_none());
    assert!(body.get("temperature").is_none());
    assert!(body.get("tools").is_none());
}

#[test]
fn deepseek_defaults_use_v4_pro_and_non_thinking_chat_completions() {
    assert_eq!(DEFAULT_MODEL, "deepseek-v4-pro");
    assert!(is_deepseek_endpoint(DEFAULT_ENDPOINT));
    assert!(!is_deepseek_endpoint(
        "https://api.openai.com/v1/chat/completions"
    ));
}

#[test]
fn completion_reasons_are_closed_and_length_requires_explicit_handling() {
    let stopped = classify_completion(Some("stop")).unwrap();
    assert_eq!(stopped, StreamCompletion::Stop);
    assert!(stopped.require_stop().is_ok());

    let limited = classify_completion(Some("length")).unwrap();
    assert_eq!(limited, StreamCompletion::Length);
    assert!(limited.require_stop().is_err());

    assert!(classify_completion(Some("content_filter")).is_err());
    assert!(classify_completion(None).is_err());
}

#[test]
fn provider_errors_never_echo_the_configured_key() {
    let key = "sensitive-test-credential";
    let sanitized = sanitize_provider_error(
        "Authentication failed for sensitive-test-credential",
        key,
    );
    assert!(!sanitized.contains(key));
    assert!(sanitized.contains("[REDACTED]"));
}

#[test]
fn external_plain_http_endpoints_are_rejected() {
    assert!(validate_endpoint("http://api.example.com/v1/chat/completions").is_err());
    assert!(validate_endpoint("http://localhost:11434/v1/chat/completions").is_ok());
    assert!(validate_endpoint("https://api.example.com/v1/chat/completions").is_ok());
}

#[test]
fn configuration_hash_changes_without_hashing_secret_material() {
    let record = ProviderRecord {
        id: Uuid::nil().to_string(),
        display_name: "Example".to_string(),
        provider_kind: "custom".to_string(),
        endpoint: "https://api.example.com/v1/chat/completions".to_string(),
        model: "model-a".to_string(),
        credential_revision: 1,
        last_tested_config_hash: None,
        last_tested_at: None,
        is_active: 0,
        created_at: "2026-08-21T00:00:00Z".to_string(),
    };
    let first = configuration_hash(&record);
    let mut changed = record.clone();
    changed.credential_revision += 1;
    assert_ne!(first, configuration_hash(&changed));
}

#[test]
fn follow_up_context_labels_suggestions_as_unconfirmed_speech() {
    let parent = exchange(Uuid::new_v4().as_u128(), 3, AssistDataClass::Standard);
    let messages = build_answer_messages("Why?", Some(&parent), "{}");
    assert!(messages
        .iter()
        .any(|message| message.content.contains("may not have been spoken")));
    assert_eq!(
        messages.last().unwrap().content,
        "Current captured question:\nWhy?"
    );
}

#[test]
fn partial_parent_answers_never_enter_follow_up_context() {
    let mut parent = exchange(Uuid::new_v4().as_u128(), 3, AssistDataClass::Standard);
    parent.status = AssistExchangeStatus::Interrupted;
    parent.answer = "Partial and possibly incoherent".to_string();
    let messages = build_answer_messages("Why?", Some(&parent), "{}");
    assert!(!messages
        .iter()
        .any(|message| message.content.contains("Partial and possibly incoherent")));
}

#[test]
fn privacy_transition_advances_the_context_generation() {
    let mut state = LiveAssistCore::default();
    assert_eq!(state.context_generation, 0);
    state.set_cloud_enabled(true);
    assert_eq!(state.context_generation, 1);
    state.set_cloud_enabled(false);
    assert_eq!(state.context_generation, 2);
    state.set_cloud_enabled(false);
    assert_eq!(state.context_generation, 2);
}

#[test]
fn follow_up_parent_is_frozen_from_the_current_selection() {
    let selected = Uuid::new_v4().as_u128();
    assert_eq!(
        capture_parent(AssistExchangeKind::FollowUp, Some(selected)).unwrap(),
        Some(selected)
    );
    assert!(capture_parent(AssistExchangeKind::FollowUp, None).is_err());
    assert_eq!(
        capture_parent(AssistExchangeKind::NewQuestion, Some(selected)).unwrap(),
        None
    );
}

#[test]
fn private_or_superseded_exchanges_cannot_enter_cloud_context() {
    let id = Uuid::new_v4().as_u128();
    let private = exchange(id, 4, AssistDataClass::Private);
    assert!(validate_cloud_parent(Some(&private), 4).is_err());

    let stale = exchange(id, 3, AssistDataClass::Standard);
    assert!(validate_cloud_parent(Some(&stale), 4).is_err());

    let eligible = exchange(id, 4, AssistDataClass::Standard);
    assert!(validate_cloud_parent(Some(&eligible), 4).is_ok());
}

#[test]
fn interrupt_marks_the_background_exchange_not_the_visible_one() {
    let background_id = Uuid::new_v4().as_u128();
    let visible_id = Uuid::new_v4().as_u128();
    let mut background = exchange(background_id, 1, AssistDataClass::Standard);
    background.status = AssistExchangeStatus::Streaming;
    let visible = exchange(visible_id, 1, AssistDataClass::Standard);
    let mut inner = LiveAssistCore::default();
    inner.current_exchange_id = Some(visible_id);
    inner.exchanges = vec![background, visible];
    let operation = ActiveOperation {
        exchange_id: background_id,
        generation_id: 1,
        kind: ActiveOperationKind::Answer,
    };
    inner.active_operation = Some(operation);

    let cancelled = inner.interrupt_active_generation();

    assert_eq!(cancelled, Some(operation));
    assert_eq!(inner.active_operation, None);
    assert_eq!(
        inner.exchanges[0].status,
        AssistExchangeStatus::Interrupted
    );
    assert_eq!(inner.exchanges[1].status, AssistExchangeStatus::Complete);
}

#[test]
fn a_capture_runs_from_start_to_transcription() {
    let mut core = LiveAssistCore::default();
    assert_eq!(
        core.start_capture(AssistExchangeKind::NewQuestion, "t0".to_string(), "rev".to_string()),
        Err(LiveAssistError::NotArmed)
    );
    core.armed = true;
    assert_eq!(
        core.start_capture(AssistExchangeKind::FollowUp, "t0".to_string(), "rev".to_string()),
        Err(LiveAssistError::FollowUpNeedsSelection)
    );
    let id = core
        .start_capture_with_id(AssistExchangeKind::NewQuestion, 7, "t1".to_string(), "rev".to_string())
        .unwrap();
    assert_eq!(id, 7);
    assert_eq!(core.current_exchange_id, Some(7));
    assert_eq!(core.active_capture, Some(7));
    assert_eq!(core.exchanges.len(), 1);
    assert_eq!(core.exchanges[0].data_class, AssistDataClass::Private);
    assert_eq!(core.exchanges[0].status, AssistExchangeStatus::Capturing);
    assert_eq!(core.exchanges[0].generation_id, 1);
    assert_eq!(core.next_generation_id, 2);
    assert_eq!(
        core.start_capture(AssistExchangeKind::NewQuestion, "t2".to_string(), "rev".to_string()),
        Err(LiveAssistError::AlreadyCapturing)
    );

    assert_eq!(core.take_active_capture(), Ok(7));
    assert_eq!(core.take_active_capture(), Err(LiveAssistError::NotCapturing));
    assert_eq!(core.finish_capture(7, 1_250), Ok(1));
    assert_eq!(core.exchanges[0].status, AssistExchangeStatus::Transcribing);
    assert_eq!(core.exchanges[0].timings.capture_ms, Some(1_250));
    assert_eq!(
        core.active_operation,
        Some(ActiveOperation {
            exchange_id: 7,
            generation_id: 1,
            kind: ActiveOperationKind::Answer
        })
    );
    assert_eq!(core.finish_capture(8, 1), Err(LiveAssistError::ExchangeNotFound));

    // Turning cloud assistance on interrupts the transcription and opens a new context.
    assert!(core.set_cloud_enabled(true).is_some());
    assert_eq!(core.exchanges[0].status, AssistExchangeStatus::Interrupted);
    assert_eq!(core.context_generation, 1);
}

#[test]
fn detail_needs_a_complete_answer_of_the_current_cloud_context() {
    let mut core = LiveAssistCore::default();
    core.cloud_enabled = true;
    core.context_generation = 2;
    let mut current = exchange(11, 2, AssistDataClass::Standard);
    current.generation_id = 1;
    let stale = exchange(12, 1, AssistDataClass::Standard);
    let mut unfinished = exchange(13, 2, AssistDataClass::Standard);
    unfinished.status = AssistExchangeStatus::Streaming;
    core.exchanges = vec![current, stale, unfinished];
    core.next_generation_id = 5;

    assert_eq!(core.begin_detail(99).unwrap_err(), LiveAssistError::ExchangeNotFound);
    assert_eq!(core.begin_detail(12).unwrap_err(), LiveAssistError::DetailsUnavailable);
    assert_eq!(core.begin_detail(13).unwrap_err(), LiveAssistError::AnswerIncomplete);
    assert_eq!(core.next_generation_id, 8);

    let (snapshot, generation) = core.begin_detail(11).unwrap();
    assert_eq!(generation, 8);
    assert_eq!(snapshot.generation_id, 8);
    assert_eq!(snapshot.detail_status, Some(AssistExchangeStatus::Requesting));
    assert_eq!(core.exchanges[0], snapshot);
    assert_eq!(
        core.active_operation,
        Some(ActiveOperation {
            exchange_id: 11,
            generation_id: 8,
            kind: ActiveOperationKind::Detail
        })
    );
    assert_eq!(core.select_exchange(12), Ok(()));
    assert_eq!(core.current_exchange_id, Some(12));
    assert_eq!(core.select_exchange(77), Err(LiveAssistError::ExchangeNotFound));
}

#[test]
fn capture_window_keeps_the_pre_roll_within_retention() {
    // One hundred samples at ten per second, a signal, then twenty more.
    let marker = capture_marker(10, true, 100, 5_000).unwrap();
    assert_eq!(marker.signal_sample_index, 100);
    let offset = clip_start_offset(marker, 10, 120, 120).unwrap();
    assert_eq!(offset, 60);
    assert_eq!(120 - offset, 60);
    assert_eq!(capture_ms(marker, 6_250), 1_250);
    assert_eq!(capture_ms(marker, 4_000), 0);
    assert_eq!(ring_capacity(10), 600);
    assert_eq!(
        clip_start_offset(marker, 10, 800, 600),
        Err(CaptureError::BeyondRetention)
    );
    assert_eq!(capture_marker(0, true, 0, 0), Err(CaptureError::NotReceiving));
    assert_eq!(capture_marker(10, false, 0, 0), Err(CaptureError::NotReceiving));
    assert_eq!(
        clip_start_offset(marker, 0, 0, 0),
        Err(CaptureError::NotConfigured)
    );
}

#[test]
fn a_key_with_marker_letters_is_still_hidden() {
    let key = "sk-REDACT-9";
    let sanitized = sanitize_provider_error("bad key sk-REDACT-9 and sk-REDACT-9x", key);
    assert_eq!(sanitized, "bad key [REDACTED] and [REDACTED]x");
    assert!(!sanitized.contains(key));
}
