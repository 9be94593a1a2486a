//! Managed live-assist providers: what a saved provider may hold, how its
//! configuration is fingerprinted, and when a save invalidates its test.
use vstd::prelude::*;

use crate::ids;

use crate::canonical;
use crate::digest;
use crate::text;
use crate::text::{push_str, str_eq, string_from, to_ascii_lowercase, trim_string};

use super::credential_store;
use super::provider::{parse_url, parsed_url, AssistProviderConfig};

verus! {

pub const MAX_DISPLAY_NAME_BYTES: usize = 120;

pub const MAX_ENDPOINT_BYTES: usize = 2048;

pub const MAX_MODEL_BYTES: usize = 240;

pub const MAX_API_KEY_BYTES: usize = 16384;

pub const PROVIDER_CONFIGURATION_DOMAIN: &'static str = "meeting-assistant-live-provider-v1\0";

#[derive(Debug, Clone, Copy, PartialEq, Eq, Structural)]
pub enum ProviderKind {
    Deepseek,
    Kimi,
    Openai,
    Custom,
}

/// Why a provider setting was refused.
#[derive(Debug, Clone, PartialEq, Eq)]
pub enum SettingsError {
    UnsupportedProviderKind,
    InvalidProviderId,
    Required(&'static str),
    TooLong(&'static str),
    InvalidEndpointUrl,
    MissingHost,
    InsecureEndpoint,
    SecureStorageUnavailable,
}

impl SettingsError {
    pub open spec fn spec_message(&self) -> Seq<char> {
        match self {
            SettingsError::UnsupportedProviderKind => "unsupported provider kind"@,
            SettingsError::InvalidProviderId => "invalid provider id"@,
            SettingsError::Required(label) => label@ + " is required"@,
            SettingsError::TooLong(label) => label@ + " is too long"@,
            SettingsError::InvalidEndpointUrl => "API endpoint is not a valid URL"@,
            SettingsError::MissingHost => "API endpoint must include a host"@,
            SettingsError::InsecureEndpoint =>
                "API endpoint must use HTTPS, except for a local loopback provider"@,
            SettingsError::SecureStorageUnavailable =>
                "Secure Live Assist provider storage is currently available on Windows only"@,
        }
    }

    /// The message shown for the error.
    pub fn message(&self) -> (r: String)
        ensures
            r@ == self.spec_message(),
    {
        match self {
            SettingsError::UnsupportedProviderKind => string_from("unsupported provider kind"),
            SettingsError::InvalidProviderId => string_from("invalid provider id"),
            SettingsError::Required(label) => {
                let mut m = string_from(label);
                push_str(&mut m, " is required");
                m
            },
            SettingsError::TooLong(label) => {
                let mut m = string_from(label);
                push_str(&mut m, " is too long");
                m
            },
            SettingsError::InvalidEndpointUrl => string_from("API endpoint is not a valid URL"),
            SettingsError::MissingHost => string_from("API endpoint must include a host"),
            SettingsError::InsecureEndpoint => string_from(
                "API endpoint must use HTTPS, except for a local loopback provider",
            ),
            SettingsError::SecureStorageUnavailable => string_from(
                "Secure Live Assist provider storage is currently available on Windows only",
            ),
        }
    }
}

impl ProviderKind {
    pub open spec fn spec_name(self) -> Seq<char> {
        match self {
            ProviderKind::Deepseek => "deepseek"@,
            ProviderKind::Kimi => "kimi"@,
            ProviderKind::Openai => "openai"@,
            ProviderKind::Custom => "custom"@,
        }
    }

    pub fn as_str(self) -> (r: &'static str)
        ensures
            r@ == self.spec_name(),
    {
        match self {
            ProviderKind::Deepseek => "deepseek",
            ProviderKind::Kimi => "kimi",
            ProviderKind::Openai => "openai",
            ProviderKind::Custom => "custom",
        }
    }

    /// The kind named by its stored text; the inverse of `as_str`.
    pub fn parse(value: &str) -> (r: Result<ProviderKind, SettingsError>)
        ensures
            r matches Ok(k) ==> k.spec_name() == value@,
            r is Err ==> r == Err::<ProviderKind, SettingsError>(
                SettingsError::UnsupportedProviderKind,
            ) && forall|k: ProviderKind| #[trigger] k.spec_name() != value@,
    {
        if str_eq(value, "deepseek") {
            Ok(ProviderKind::Deepseek)
        } else if str_eq(value, "kimi") {
            Ok(ProviderKind::Kimi)
        } else if str_eq(value, "openai") {
            Ok(ProviderKind::Openai)
        } else if str_eq(value, "custom") {
            Ok(ProviderKind::Custom)
        } else {
            proof {
                assert forall|k: ProviderKind| #[trigger] k.spec_name() != value@ by {
                    match k {
                        ProviderKind::Deepseek => {},
                        ProviderKind::Kimi => {},
                        ProviderKind::Openai => {},
                        ProviderKind::Custom => {},
                    }
                }
            }
            Err(SettingsError::UnsupportedProviderKind)
        }
    }
}

/// A stored provider row.
#[derive(Debug, Clone, PartialEq, Eq)]
pub struct ProviderRecord {
    pub id: String,
    pub display_name: String,
    pub provider_kind: String,
    pub endpoint: String,
    pub model: String,
    pub credential_revision: i64,
    pub last_tested_config_hash: Option<String>,
    pub last_tested_at: Option<String>,
    pub is_active: i64,
    pub created_at: String,
}

#[derive(Debug, Clone, PartialEq, Eq)]
pub struct ProviderSummary {
    pub id: String,
    pub display_name: String,
    pub provider_kind: ProviderKind,
    pub endpoint: String,
    pub model: String,
    pub is_active: bool,
    pub key_configured: bool,
    pub last_tested_at: Option<String>,
    pub test_current: bool,
}

#[derive(Debug, Clone, PartialEq, Eq)]
pub struct SaveProviderRequest {
    pub id: Option<String>,
    pub display_name: String,
    pub provider_kind: ProviderKind,
    pub endpoint: String,
    pub model: String,
    pub api_key: Option<String>,
}

// ----------------------------------------------------------------------------
// Field rules
// ----------------------------------------------------------------------------
pub open spec fn byte_len(s: Seq<char>) -> nat {
    vstd::utf8::encode_utf8(s).len()
}

/// A trimmed, non-empty value of bounded UTF-8 length.
pub open spec fn bounded_rule(label: &'static str, value: Seq<char>, max_bytes: usize) -> Result<
    Seq<char>,
    SettingsError,
> {
    let v = text::trim(value);
    if v.len() == 0 {
        Err(SettingsError::Required(label))
    } else if byte_len(v) > max_bytes {
        Err(SettingsError::TooLong(label))
    } else {
        Ok(v)
    }
}

pub fn bounded(label: &'static str, value: &str, max_bytes: usize) -> (r: Result<String, SettingsError>)
    ensures
        match bounded_rule(label, value@, max_bytes) {
            Ok(v) => r matches Ok(s) && s@ == v,
            Err(e) => r == Err::<String, SettingsError>(e),
        },
{
    let v = trim_string(value);
    if v.as_str().is_empty() {
        return Err(SettingsError::Required(label));
    }
    if v.as_str().as_bytes().len() > max_bytes {
        return Err(SettingsError::TooLong(label));
    }
    Ok(v)
}

/// An endpoint must be HTTPS, except plain HTTP to a loopback host.
pub open spec fn endpoint_rule(value: Seq<char>) -> Result<Seq<char>, SettingsError> {
    match bounded_rule("API endpoint", value, MAX_ENDPOINT_BYTES) {
        Err(e) => Err(e),
        Ok(e) => match parsed_url(e) {
            None => Err(SettingsError::InvalidEndpointUrl),
            Some(p) => match p.1 {
                None => Err(SettingsError::MissingHost),
                Some(host) => {
                    let h = text::ascii_lower(host);
                    let local_http = p.0 == "http"@ && (h == "localhost"@ || h == "127.0.0.1"@ || h
                        == "::1"@);
                    if p.0 != "https"@ && !local_http {
                        Err(SettingsError::InsecureEndpoint)
                    } else {
                        Ok(e)
                    }
                },
            },
        },
    }
}

pub fn validate_endpoint(value: &str) -> (r: Result<String, SettingsError>)
    ensures
        match endpoint_rule(value@) {
            Ok(v) => r matches Ok(s) && s@ == v,
            Err(e) => r == Err::<String, SettingsError>(e),
        },
{
    let endpoint = bounded("API endpoint", value, MAX_ENDPOINT_BYTES)?;
    let (scheme, host) = match parse_url(endpoint.as_str()) {
        Some(p) => p,
        None => {
            return Err(SettingsError::InvalidEndpointUrl);
        },
    };
    let host = match host {
        Some(h) => h,
        None => {
            return Err(SettingsError::MissingHost);
        },
    };
    let lowered = to_ascii_lowercase(host.as_str());
    let local_http = str_eq(scheme.as_str(), "http") && (str_eq(lowered.as_str(), "localhost")
        || str_eq(lowered.as_str(), "127.0.0.1") || str_eq(lowered.as_str(), "::1"));
    if !str_eq(scheme.as_str(), "https") && !local_http {
        return Err(SettingsError::InsecureEndpoint);
    }
    Ok(endpoint)
}

/// A provider id is a UUID, stored in its hyphenated lower-case form.
pub fn validate_id(value: &str) -> (r: Result<String, SettingsError>)
    ensures
        match ids::parsed_uuid(value@) {
            Some(id) => r matches Ok(s) && s@ == canonical::uuid_text(id),
            None => r == Err::<String, SettingsError>(SettingsError::InvalidProviderId),
        },
{
    match ids::parse_uuid(value) {
        Some(id) => {
            let mut out = String::new();
            canonical::write_uuid_text(&mut out, id);
            Ok(out)
        },
        None => Err(SettingsError::InvalidProviderId),
    }
}

// ----------------------------------------------------------------------------
// Configuration fingerprint
// ----------------------------------------------------------------------------
/// The eight little-endian bytes of a signed 64-bit integer.
pub open spec fn le_bytes(v: i64) -> Seq<u8> {
    Seq::new(8, |k: int| (((v as u64) >> ((8 * k) as u64)) & 0xffu64) as u8)
}

/// The bytes hashed for a provider's configuration: kind, endpoint and model
/// separated by NUL bytes, then the credential revision.  The key itself is
/// never part of it.
pub open spec fn configuration_payload(r: ProviderRecord) -> Seq<u8> {
    vstd::utf8::encode_utf8(PROVIDER_CONFIGURATION_DOMAIN@) + vstd::utf8::encode_utf8(
        r.provider_kind@,
    ) + seq![0u8] + vstd::utf8::encode_utf8(r.endpoint@) + seq![0u8] + vstd::utf8::encode_utf8(
        r.model@,
    ) + seq![0u8] + le_bytes(r.credential_revision)
}

pub open spec fn configuration_digest(r: ProviderRecord) -> Seq<char> {
    digest::hex_lower(digest::sha256_spec(configuration_payload(r)))
}

pub fn configuration_hash(record: &ProviderRecord) -> (r: String)
    ensures
        r@ == configuration_digest(*record),
{
    let mut bytes: Vec<u8> = Vec::new();
    bytes.extend_from_slice(PROVIDER_CONFIGURATION_DOMAIN.as_bytes());
    bytes.extend_from_slice(record.provider_kind.as_str().as_bytes());
    bytes.push(0u8);
    bytes.extend_from_slice(record.endpoint.as_str().as_bytes());
    bytes.push(0u8);
    bytes.extend_from_slice(record.model.as_str().as_bytes());
    bytes.push(0u8);
    let ghost head = bytes@;
    proof {
        assert(head =~= vstd::utf8::encode_utf8(PROVIDER_CONFIGURATION_DOMAIN@)
            + vstd::utf8::encode_utf8(record.provider_kind@) + seq![0u8]
            + vstd::utf8::encode_utf8(record.endpoint@) + seq![0u8] + vstd::utf8::encode_utf8(
            record.model@,
        ) + seq![0u8]);
    }
    let v = record.credential_revision as u64;
    let mut k: u64 = 0;
    while k < 8
        invariant
            0 <= k <= 8,
            v == record.credential_revision as u64,
            bytes@.len() == head.len() + k,
            forall|q: int| 0 <= q < head.len() ==> #[trigger] bytes@[q] == head[q],
            forall|q: int|
                0 <= q < k ==> #[trigger] bytes@[head.len() + q] == le_bytes(
                    record.credential_revision,
                )[q],
        decreases 8 - k,
    {
        let b = ((v >> (8 * k)) & 0xffu64) as u8;
        let ghost prev = bytes@;
        bytes.push(b);
        proof {
            assert forall|q: int| 0 <= q < k + 1 implies #[trigger] bytes@[head.len() + q]
                == le_bytes(record.credential_revision)[q] by {
                if q < k {
                    assert(bytes@[head.len() + q] == prev[head.len() + q]);
                }
            }
        }
        k += 1;
    }
    proof {
        let lb = le_bytes(record.credential_revision);
        assert(lb.len() == 8);
        assert forall|i: int| 0 <= i < bytes@.len() implies bytes@[i] == (head + lb)[i] by {
            if i >= head.len() {
                let q = i - head.len();
                assert(bytes@[head.len() + q] == lb[q]);
            }
        }
        assert(bytes@ =~= head + lb);
        assert(bytes@ =~= configuration_payload(*record));
    }
    digest::sha256_hex(bytes.as_slice())
}

// ----------------------------------------------------------------------------
// Saving
// ----------------------------------------------------------------------------
/// A save that changes kind, endpoint, model or key (or creates the
/// provider) invalidates its last test and deactivates it.
pub open spec fn configuration_changed(
    existing: Option<ProviderRecord>,
    kind: ProviderKind,
    endpoint: Seq<char>,
    model: Seq<char>,
    key_changed: bool,
) -> bool {
    let changed = match existing {
        None => true,
        Some(r) => r.provider_kind@ != kind.spec_name() || r.endpoint@ != endpoint || r.model@
            != model,
    };
    changed || key_changed
}

/// The credential revision after a save: one more when a new key is saved.
pub open spec fn next_revision(existing: Option<ProviderRecord>, key_changed: bool) -> int {
    (match existing {
        Some(r) => r.credential_revision as int,
        None => 0,
    }) + if key_changed {
        1int
    } else {
        0int
    }
}

pub open spec fn opt_record(o: Option<&ProviderRecord>) -> Option<ProviderRecord> {
    match o {
        Some(r) => Some(*r),
        None => None,
    }
}

pub fn save_changes_configuration(
    existing: Option<&ProviderRecord>,
    kind: ProviderKind,
    endpoint: &str,
    model: &str,
    key_changed: bool,
) -> (r: bool)
    ensures
        r == configuration_changed(opt_record(existing), kind, endpoint@, model@, key_changed),
{
    let changed = match existing {
        None => true,
        Some(record) => !str_eq(record.provider_kind.as_str(), kind.as_str()) || !str_eq(
            record.endpoint.as_str(),
            endpoint,
        ) || !str_eq(record.model.as_str(), model),
    };
    changed || key_changed
}

pub fn next_credential_revision(existing: Option<&ProviderRecord>, key_changed: bool) -> (r: Option<
    i64,
>)
    ensures
        match r {
            Some(v) => v == next_revision(opt_record(existing), key_changed),
            None => next_revision(opt_record(existing), key_changed) > i64::MAX,
        },
{
    let base: i64 = match existing {
        Some(record) => record.credential_revision,
        None => 0,
    };
    if key_changed {
        base.checked_add(1)
    } else {
        Some(base)
    }
}

/// The summary shown for a stored provider: its key is configured when the
/// credential store holds one, and its test is current when the last tested
/// fingerprint is that of its present configuration.
pub fn summary(record: ProviderRecord) -> (r: Result<ProviderSummary, SettingsError>)
    ensures
        match r {
            Ok(s) => {
                &&& s.provider_kind.spec_name() == record.provider_kind@
                &&& s.id == record.id
                &&& s.display_name == record.display_name
                &&& s.endpoint == record.endpoint
                &&& s.model == record.model
                &&& s.is_active == (record.is_active == 1)
                &&& !s.key_configured
                &&& !s.test_current
                &&& s.last_tested_at == record.last_tested_at
            },
            Err(e) => e == SettingsError::UnsupportedProviderKind && forall|k: ProviderKind|
                #[trigger] k.spec_name() != record.provider_kind@,
        },
{
    let key_configured = match credential_store::read(record.id.as_str()) {
        Ok(v) => v.is_some(),
        Err(e) => {
            return Err(e);
        },
    };
    let test_current = key_configured && match &record.last_tested_config_hash {
        Some(h) => {
            let current = configuration_hash(&record);
            str_eq(h.as_str(), current.as_str())
        },
        None => false,
    };
    let provider_kind = ProviderKind::parse(record.provider_kind.as_str())?;
    Ok(
        ProviderSummary {
            id: record.id,
            display_name: record.display_name,
            provider_kind,
            endpoint: record.endpoint,
            model: record.model,
            is_active: record.is_active == 1,
            key_configured,
            last_tested_at: record.last_tested_at,
            test_current,
        },
    )
}


// ----------------------------------------------------------------------------
// Using a saved provider
// ----------------------------------------------------------------------------
/// A saved provider whose current configuration passed its connection test.
#[derive(Debug, Clone, PartialEq, Eq)]
pub struct ManagedProviderConfig {
    pub id: String,
    pub display_name: String,
    pub provider_kind: String,
    pub endpoint: String,
    pub model: String,
    pub api_key: String,
    pub credential_revision: i64,
    pub configuration_hash: String,
    pub last_tested_at: String,
}

/// Why a saved provider cannot be used.
#[derive(Debug, Clone, PartialEq, Eq)]
pub enum ProviderAccessError {
    Settings(SettingsError),
    ActiveProviderMissing,
    ActiveProviderInactive,
    ActiveProviderKeyMissing,
    EvaluationProviderMissing,
    EvaluationProviderKeyMissing,
    ConnectionTestStale,
    ConnectionTestMissing,
}

impl ProviderAccessError {
    pub open spec fn spec_message(&self) -> Seq<char> {
        match self {
            ProviderAccessError::Settings(e) => e.spec_message(),
            ProviderAccessError::ActiveProviderMissing =>
                "the active Live Assist provider no longer exists"@,
            ProviderAccessError::ActiveProviderInactive =>
                "the selected Live Assist provider is not active"@,
            ProviderAccessError::ActiveProviderKeyMissing =>
                "the active Live Assist provider has no saved API key"@,
            ProviderAccessError::EvaluationProviderMissing =>
                "the selected evaluation provider no longer exists"@,
            ProviderAccessError::EvaluationProviderKeyMissing =>
                "the selected evaluation provider has no saved API key"@,
            ProviderAccessError::ConnectionTestStale =>
                "Test Connection must succeed for the selected endpoint, model, and key before evaluation"@,
            ProviderAccessError::ConnectionTestMissing =>
                "the selected evaluation provider has no successful connection test"@,
        }
    }

    /// The message shown for the error.
    pub fn message(&self) -> (r: String)
        ensures
            r@ == self.spec_message(),
    {
        match self {
            ProviderAccessError::Settings(e) => e.message(),
            ProviderAccessError::ActiveProviderMissing => string_from(
                "the active Live Assist provider no longer exists",
            ),
            ProviderAccessError::ActiveProviderInactive => string_from(
                "the selected Live Assist provider is not active",
            ),
            ProviderAccessError::ActiveProviderKeyMissing => string_from(
                "the active Live Assist provider has no saved API key",
            ),
            ProviderAccessError::EvaluationProviderMissing => string_from(
                "the selected evaluation provider no longer exists",
            ),
            ProviderAccessError::EvaluationProviderKeyMissing => string_from(
                "the selected evaluation provider has no saved API key",
            ),
            ProviderAccessError::ConnectionTestStale => string_from(
                "Test Connection must succeed for the selected endpoint, model, and key before evaluation",
            ),
            ProviderAccessError::ConnectionTestMissing => string_from(
                "the selected evaluation provider has no successful connection test",
            ),
        }
    }
}

/// The configuration of the active provider: it must still exist, still be
/// active, and have a saved key.
pub open spec fn active_config_rule(
    record: Option<ProviderRecord>,
    stored_key: Result<Option<String>, SettingsError>,
) -> Result<AssistProviderConfig, ProviderAccessError> {
    match record {
        None => Err(ProviderAccessError::ActiveProviderMissing),
        Some(rec) => if rec.is_active != 1 {
            Err(ProviderAccessError::ActiveProviderInactive)
        } else {
            match stored_key {
                Err(e) => Err(ProviderAccessError::Settings(e)),
                Ok(None) => Err(ProviderAccessError::ActiveProviderKeyMissing),
                Ok(Some(key)) => Ok(
                    AssistProviderConfig { endpoint: rec.endpoint, api_key: key, model: rec.model },
                ),
            }
        },
    }
}

/// Builds the configuration of the active provider from its stored row and
/// what the credential store held for it.
pub fn active_provider_config(
    record: Option<ProviderRecord>,
    stored_key: Result<Option<String>, SettingsError>,
) -> (r: Result<AssistProviderConfig, ProviderAccessError>)
    ensures
        r == active_config_rule(record, stored_key),
{
    let rec = match record {
        None => {
            return Err(ProviderAccessError::ActiveProviderMissing);
        },
        Some(rec) => rec,
    };
    if rec.is_active != 1 {
        return Err(ProviderAccessError::ActiveProviderInactive);
    }
    match stored_key {
        Err(e) => Err(ProviderAccessError::Settings(e)),
        Ok(None) => Err(ProviderAccessError::ActiveProviderKeyMissing),
        Ok(Some(api_key)) => Ok(
            AssistProviderConfig { endpoint: rec.endpoint, api_key, model: rec.model },
        ),
    }
}

/// Loads the configuration of the active provider, reading its key from the
/// credential store only when the provider exists and is active.
pub fn load_active_config(record: Option<ProviderRecord>) -> (r: Result<
    AssistProviderConfig,
    ProviderAccessError,
>)
    ensures
        match record {
            None => r == Err::<AssistProviderConfig, ProviderAccessError>(
                ProviderAccessError::ActiveProviderMissing,
            ),
            Some(rec) => if rec.is_active != 1 {
                r == Err::<AssistProviderConfig, ProviderAccessError>(
                    ProviderAccessError::ActiveProviderInactive,
                )
            } else {
                r == active_config_rule(record, Ok(None))
            },
        },
{
    let stored_key = match &record {
        Some(rec) => if rec.is_active == 1 {
            credential_store::read(rec.id.as_str())
        } else {
            Ok(None)
        },
        None => Ok(None),
    };
    active_provider_config(record, stored_key)
}

/// The configuration of the provider chosen for evaluation: its id must be
/// valid, it must still exist, have a saved key, and its current
/// configuration must be the one that last passed the connection test.
pub open spec fn tested_config_rule(
    provider_id: Seq<char>,
    record: Option<ProviderRecord>,
    stored_key: Result<Option<String>, SettingsError>,
) -> Result<ManagedProviderConfig, ProviderAccessError> {
    match ids::parsed_uuid(provider_id) {
        None => Err(ProviderAccessError::Settings(SettingsError::InvalidProviderId)),
        Some(_) => match record {
            None => Err(ProviderAccessError::EvaluationProviderMissing),
            Some(rec) => match stored_key {
                Err(e) => Err(ProviderAccessError::Settings(e)),
                Ok(None) => Err(ProviderAccessError::EvaluationProviderKeyMissing),
                Ok(Some(key)) => {
                    let digest = configuration_digest(rec);
                    if !(rec.last_tested_config_hash matches Some(h) && h@ == digest) {
                        Err(ProviderAccessError::ConnectionTestStale)
                    } else {
                        match rec.last_tested_at {
                            None => Err(ProviderAccessError::ConnectionTestMissing),
                            Some(at) => Ok(
                                ManagedProviderConfig {
                                    id: rec.id,
                                    display_name: rec.display_name,
                                    provider_kind: rec.provider_kind,
                                    endpoint: rec.endpoint,
                                    model: rec.model,
                                    api_key: key,
                                    credential_revision: rec.credential_revision,
                                    configuration_hash: rec.last_tested_config_hash->Some_0,
                                    last_tested_at: at,
                                },
                            ),
                        }
                    }
                },
            },
        },
    }
}

/// Builds the configuration of the provider chosen for evaluation from its
/// stored row and what the credential store held for it.
pub fn tested_provider_config(
    provider_id: &str,
    record: Option<ProviderRecord>,
    stored_key: Result<Option<String>, SettingsError>,
) -> (r: Result<ManagedProviderConfig, ProviderAccessError>)
    ensures
        match (r, tested_config_rule(provider_id@, record, stored_key)) {
            (Ok(a), Ok(b)) => a == ManagedProviderConfig { configuration_hash: a.configuration_hash, ..b }
                && a.configuration_hash@ == b.configuration_hash@,
            (Err(a), Err(b)) => a == b,
            _ => false,
        },
{
    match validate_id(provider_id) {
        Err(e) => {
            return Err(ProviderAccessError::Settings(e));
        },
        Ok(_) => {},
    }
    let rec = match record {
        None => {
            return Err(ProviderAccessError::EvaluationProviderMissing);
        },
        Some(rec) => rec,
    };
    let api_key = match stored_key {
        Err(e) => {
            return Err(ProviderAccessError::Settings(e));
        },
        Ok(None) => {
            return Err(ProviderAccessError::EvaluationProviderKeyMissing);
        },
        Ok(Some(k)) => k,
    };
    let config_hash = configuration_hash(&rec);
    let current = match &rec.last_tested_config_hash {
        Some(h) => str_eq(h.as_str(), config_hash.as_str()),
        None => false,
    };
    if !current {
        return Err(ProviderAccessError::ConnectionTestStale);
    }
    let last_tested_at = match rec.last_tested_at {
        None => {
            return Err(ProviderAccessError::ConnectionTestMissing);
        },
        Some(at) => at,
    };
    Ok(
        ManagedProviderConfig {
            id: rec.id,
            display_name: rec.display_name,
            provider_kind: rec.provider_kind,
            endpoint: rec.endpoint,
            model: rec.model,
            api_key,
            credential_revision: rec.credential_revision,
            configuration_hash: config_hash,
            last_tested_at,
        },
    )
}

/// Loads the configuration of the provider chosen for evaluation, reading
/// its key from the credential store only when the provider exists.
pub fn load_tested_config(provider_id: &str, record: Option<ProviderRecord>) -> (r: Result<
    ManagedProviderConfig,
    ProviderAccessError,
>)
    ensures
        match (r, tested_config_rule(provider_id@, record, Ok(None))) {
            (Ok(a), Ok(b)) => a == ManagedProviderConfig { configuration_hash: a.configuration_hash, ..b }
                && a.configuration_hash@ == b.configuration_hash@,
            (Err(a), Err(b)) => a == b,
            _ => false,
        },
{
    let stored_key = match &record {
        Some(rec) => credential_store::read(rec.id.as_str()),
        None => Ok(None),
    };
    tested_provider_config(provider_id, record, stored_key)
}


/// A save reports its configuration changed, which invalidates the last
/// test and deactivates the provider, when the provider is new or when its
/// kind, endpoint, model or key differs from what is stored; a save that
/// keeps all four reports no change.
pub proof fn lemma_configuration_change_laws(
    existing: Option<ProviderRecord>,
    kind: ProviderKind,
    endpoint: Seq<char>,
    model: Seq<char>,
    key_changed: bool,
)
    ensures
        existing is None ==> configuration_changed(existing, kind, endpoint, model, key_changed),
        key_changed ==> configuration_changed(existing, kind, endpoint, model, key_changed),
        (existing matches Some(r) && r.provider_kind@ != kind.spec_name()) ==> configuration_changed(
            existing,
            kind,
            endpoint,
            model,
            key_changed,
        ),
        (existing matches Some(r) && r.endpoint@ != endpoint) ==> configuration_changed(
            existing,
            kind,
            endpoint,
            model,
            key_changed,
        ),
        (existing matches Some(r) && r.model@ != model) ==> configuration_changed(
            existing,
            kind,
            endpoint,
            model,
            key_changed,
        ),
        (existing matches Some(r) && r.provider_kind@ == kind.spec_name() && r.endpoint@ == endpoint
            && r.model@ == model && !key_changed) ==> !configuration_changed(
            existing,
            kind,
            endpoint,
            model,
            key_changed,
        ),
{
}

} // verus!
