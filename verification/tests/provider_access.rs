use meeting_assistant::live_assist::provider_settings::{
    active_provider_config, configuration_hash, load_active_config, load_tested_config,
    tested_provider_config, ProviderAccessError, ProviderRecord, SettingsError,
};

const PROVIDER_ID: &str = "6f9619ff-8b86-4011-b42d-00c04fc964ff";

fn record(active: bool) -> ProviderRecord {
    ProviderRecord {
        id: PROVIDER_ID.to_string(),
        display_name: "Example".to_string(),
        provider_kind: "custom".to_string(),
        endpoint: "https://api.example.com/v1/chat/completions".to_string(),
        model: "model-a".to_string(),
        credential_revision: 2,
        last_tested_config_hash: None,
        last_tested_at: None,
        is_active: if active { 1 } else { 0 },
        created_at: "2026-08-21T00:00:00Z".to_string(),
    }
}

fn tested_record() -> ProviderRecord {
    let mut r = record(true);
    r.last_tested_config_hash = Some(configuration_hash(&r));
    r.last_tested_at = Some("2026-08-22T10:00:00Z".to_string());
    r
}

#[test]
fn the_active_provider_needs_a_row_activity_and_a_key() {
    assert_eq!(
        active_provider_config(None, Ok(Some("k".to_string()))),
        Err(ProviderAccessError::ActiveProviderMissing)
    );
    assert_eq!(
        active_provider_config(Some(record(false)), Ok(Some("k".to_string()))),
        Err(ProviderAccessError::ActiveProviderInactive)
    );
    assert_eq!(
        active_provider_config(Some(record(true)), Ok(None)),
        Err(ProviderAccessError::ActiveProviderKeyMissing)
    );
    assert_eq!(
        active_provider_config(Some(record(true)), Err(SettingsError::SecureStorageUnavailable)),
        Err(ProviderAccessError::Settings(SettingsError::SecureStorageUnavailable))
    );
    let config = active_provider_config(Some(record(true)), Ok(Some("secret".to_string()))).unwrap();
    assert_eq!(config.endpoint, "https://api.example.com/v1/chat/completions");
    assert_eq!(config.model, "model-a");
    assert_eq!(config.api_key, "secret");
}

#[test]
fn without_a_secure_store_no_active_key_is_found() {
    assert_eq!(
        load_active_config(Some(record(true))),
        Err(ProviderAccessError::ActiveProviderKeyMissing)
    );
    assert_eq!(
        load_active_config(Some(record(false))),
        Err(ProviderAccessError::ActiveProviderInactive)
    );
    assert_eq!(
        ProviderAccessError::ActiveProviderKeyMissing.message(),
        "the active Live Assist provider has no saved API key"
    );
}

#[test]
fn evaluation_needs_a_current_connection_test() {
    let key = || Ok(Some("secret".to_string()));
    assert_eq!(
        tested_provider_config("not-a-uuid", Some(tested_record()), key()),
        Err(ProviderAccessError::Settings(SettingsError::InvalidProviderId))
    );
    assert_eq!(
        tested_provider_config(PROVIDER_ID, None, key()),
        Err(ProviderAccessError::EvaluationProviderMissing)
    );
    assert_eq!(
        tested_provider_config(PROVIDER_ID, Some(tested_record()), Ok(None)),
        Err(ProviderAccessError::EvaluationProviderKeyMissing)
    );
    assert_eq!(
        tested_provider_config(PROVIDER_ID, Some(record(true)), key()),
        Err(ProviderAccessError::ConnectionTestStale)
    );
    let mut changed = tested_record();
    changed.model = "model-b".to_string();
    assert_eq!(
        tested_provider_config(PROVIDER_ID, Some(changed), key()),
        Err(ProviderAccessError::ConnectionTestStale)
    );
    let mut untimed = tested_record();
    untimed.last_tested_at = None;
    assert_eq!(
        tested_provider_config(PROVIDER_ID, Some(untimed), key()),
        Err(ProviderAccessError::ConnectionTestMissing)
    );
    let config = tested_provider_config(PROVIDER_ID, Some(tested_record()), key()).unwrap();
    assert_eq!(config.api_key, "secret");
    assert_eq!(config.configuration_hash, configuration_hash(&tested_record()));
    assert_eq!(config.last_tested_at, "2026-08-22T10:00:00Z");
    assert_eq!(config.credential_revision, 2);
    assert_eq!(
        load_tested_config(PROVIDER_ID, Some(tested_record())),
        Err(ProviderAccessError::EvaluationProviderKeyMissing)
    );
}

#[test]
fn settings_errors_read_as_the_user_sees_them() {
    assert_eq!(SettingsError::Required("Display name").message(), "Display name is required");
    assert_eq!(SettingsError::TooLong("Model").message(), "Model is too long");
    assert_eq!(
        SettingsError::InsecureEndpoint.message(),
        "API endpoint must use HTTPS, except for a local loopback provider"
    );
    assert_eq!(
        ProviderAccessError::ConnectionTestStale.message(),
        "Test Connection must succeed for the selected endpoint, model, and key before evaluation"
    );
}
