//! The decisions behind the expert-profile commands: error shapes, which
//! provider access needs explicit cloud consent, and what of a generated
//! summary is stored.
use vstd::prelude::*;

use crate::canonical;
use crate::digest;
use crate::text;
use crate::text::{push_str, str_contains, str_is_blank, str_starts_with, string_from, to_ascii_lowercase};

use super::hashing::HashError;
use super::rendering;
use super::bundle::BundleError;
use super::models::{ExpertProfileVersion, MeetingPlaybook};
use super::repository::{ExpertProfileRepositoryError, StoredEvalPlan, StoredProfileVersion};
use super::validation::{ValidationErrorCode, ValidationErrors};
use vstd::utf8;

verus! {

pub const PROVIDER_ENDPOINT_HASH_DOMAIN: &'static str = "meetily-provider-endpoint-v1\0";

pub const DEFAULT_OLLAMA_ENDPOINT: &'static str = "http://localhost:11434";

/// An error as a command reports it: a stable code, the JSON path of the
/// first problem where there is one, and a message.
#[derive(Debug, Clone, PartialEq, Eq)]
pub struct ProfileCommandError {
    pub code: String,
    pub path: Option<String>,
    pub message: String,
}

impl ProfileCommandError {
    pub fn new(code: &str, message: String) -> (r: ProfileCommandError)
        ensures
            r.code@ == code@,
            r.path is None,
            r.message == message,
    {
        ProfileCommandError { code: string_from(code), path: None, message }
    }
}

/// The stable code of a store error.
pub open spec fn repository_code(e: ExpertProfileRepositoryError) -> Seq<char> {
    match e {
        ExpertProfileRepositoryError::Validation(_) => "SCHEMA_MISMATCH"@,
        ExpertProfileRepositoryError::Hash(_) => "DIGEST_MISMATCH"@,
        ExpertProfileRepositoryError::StoredContentIntegrity { .. } => "DIGEST_MISMATCH"@,
        ExpertProfileRepositoryError::ProfileNotFound(_) => "NOT_FOUND"@,
        ExpertProfileRepositoryError::VersionNotFound { .. } => "NOT_FOUND"@,
        ExpertProfileRepositoryError::EvalPlanNotFound { .. } => "NOT_FOUND"@,
        ExpertProfileRepositoryError::EvalRunNotFound(_) => "NOT_FOUND"@,
        ExpertProfileRepositoryError::EvalRunNotQualifying { outcome, .. } => if outcome@
            == "inconclusive"@ {
            "EVAL_INCONCLUSIVE"@
        } else {
            "EVAL_FAILED"@
        },
        ExpertProfileRepositoryError::ActivationInputChanged(_) => "ACTIVATION_INPUT_CHANGED"@,
        ExpertProfileRepositoryError::BindingSuperseded(_) => "BINDING_SUPERSEDED"@,
        ExpertProfileRepositoryError::ProfileActive => "PROFILE_ACTIVE"@,
        ExpertProfileRepositoryError::Database(_) => "DATABASE_ERROR"@,
    }
}

/// The stable code of a bundle error.
pub open spec fn bundle_code(e: BundleError) -> Seq<char> {
    match e {
        BundleError::LimitExceeded => "LIMIT_EXCEEDED"@,
        BundleError::DepthExceeded => "LIMIT_EXCEEDED"@,
        BundleError::UnsupportedFormat => "UNSUPPORTED_FORMAT_VERSION"@,
        BundleError::Schema(_) => "SCHEMA_MISMATCH"@,
        BundleError::Validation(_) => "SCHEMA_MISMATCH"@,
        BundleError::DigestMismatch(_) => "DIGEST_MISMATCH"@,
        BundleError::Hash(_) => "DIGEST_MISMATCH"@,
        BundleError::IdentityConflict => "IDENTITY_CONFLICT"@,
        BundleError::Repository(_) => "DATABASE_ERROR"@,
    }
}

impl ProfileCommandError {
    /// A store error as a command reports it, under its stable code.
    pub fn from_repository(error: &ExpertProfileRepositoryError) -> (r: ProfileCommandError)
        ensures
            r.code@ == repository_code(*error),
            r.path is None,
            r.message@ == error.spec_message(),
    {
        let code: &str = match error {
            ExpertProfileRepositoryError::Validation(_) => "SCHEMA_MISMATCH",
            ExpertProfileRepositoryError::Hash(_) => "DIGEST_MISMATCH",
            ExpertProfileRepositoryError::StoredContentIntegrity { .. } => "DIGEST_MISMATCH",
            ExpertProfileRepositoryError::ProfileNotFound(_) => "NOT_FOUND",
            ExpertProfileRepositoryError::VersionNotFound { .. } => "NOT_FOUND",
            ExpertProfileRepositoryError::EvalPlanNotFound { .. } => "NOT_FOUND",
            ExpertProfileRepositoryError::EvalRunNotFound(_) => "NOT_FOUND",
            ExpertProfileRepositoryError::EvalRunNotQualifying { outcome, .. } => {
                proof {
                    reveal_strlit("inconclusive");
                }
                if text::str_eq(outcome.as_str(), "inconclusive") {
                    "EVAL_INCONCLUSIVE"
                } else {
                    "EVAL_FAILED"
                }
            },
            ExpertProfileRepositoryError::ActivationInputChanged(_) => "ACTIVATION_INPUT_CHANGED",
            ExpertProfileRepositoryError::BindingSuperseded(_) => "BINDING_SUPERSEDED",
            ExpertProfileRepositoryError::ProfileActive => "PROFILE_ACTIVE",
            ExpertProfileRepositoryError::Database(_) => "DATABASE_ERROR",
        };
        ProfileCommandError::new(code, error.message())
    }
}

/// A bundle error as a command reports it, under its stable code.
pub fn bundle_error(error: &BundleError) -> (r: ProfileCommandError)
    ensures
        r.code@ == bundle_code(*error),
        r.path is None,
        r.message@ == error.spec_message(),
{
    let code: &str = match error {
        BundleError::LimitExceeded => "LIMIT_EXCEEDED",
        BundleError::DepthExceeded => "LIMIT_EXCEEDED",
        BundleError::UnsupportedFormat => "UNSUPPORTED_FORMAT_VERSION",
        BundleError::Schema(_) => "SCHEMA_MISMATCH",
        BundleError::Validation(_) => "SCHEMA_MISMATCH",
        BundleError::DigestMismatch(_) => "DIGEST_MISMATCH",
        BundleError::Hash(_) => "DIGEST_MISMATCH",
        BundleError::IdentityConflict => "IDENTITY_CONFLICT",
        BundleError::Repository(_) => "DATABASE_ERROR",
    };
    ProfileCommandError::new(code, error.message())
}

/// What creating a profile returns: its new identities and stored records.
#[derive(Debug, Clone, PartialEq, Eq)]
pub struct ProfileCreateResponse {
    pub profile_id: u128,
    pub plan_id: u128,
    pub profile_version: StoredProfileVersion,
    pub eval_plan: StoredEvalPlan,
}

/// The request to summarise a meeting with a profile.
#[derive(Debug, Clone, PartialEq, Eq)]
pub struct ProfileSummaryArgs {
    pub meeting_id: String,
    pub transcript_text: String,
    pub profile_id: u128,
    pub playbook_id: u128,
    pub additional_user_context: Option<String>,
    pub summary_language: Option<String>,
    pub detected_transcript_language: Option<String>,
    pub cloud_consent: bool,
}

/// Which profile, capability, binding, renderer and parser produced a summary.
#[derive(Debug, Clone, PartialEq, Eq)]
pub struct ProfileSummaryProvenance {
    pub profile_id: u128,
    pub profile_version_hash: String,
    pub playbook_id: u128,
    pub capability_revision_hash: String,
    pub model_binding_hash: String,
    pub prompt_renderer_hash: String,
    pub output_parser_version: u32,
}

#[derive(Debug, Clone, PartialEq, Eq)]
pub struct ProfileSummaryResponse {
    pub meeting_id: String,
    pub markdown: String,
    pub english_markdown: String,
    pub chunk_count: i64,
    pub provenance: ProfileSummaryProvenance,
}

pub fn validation_code(code: ValidationErrorCode) -> (r: &'static str)
    ensures
        r@ == code.spec_name(),
{
    code.as_str()
}

/// A validation failure is reported by its first problem.
pub fn validation_error(errors: ValidationErrors) -> (r: ProfileCommandError)
    ensures
        errors.0@.len() > 0 ==> {
            &&& r.code@ == errors.0@[0].code.spec_name()
            &&& r.path matches Some(p) && p == errors.0@[0].path
            &&& r.message == errors.0@[0].message
        },
        errors.0@.len() == 0 ==> {
            &&& r.code@ == "SCHEMA_MISMATCH"@
            &&& r.path is None
            &&& r.message@ == "expert profile validation failed"@
        },
{
    if errors.0.len() > 0 {
        let first = &errors.0[0];
        ProfileCommandError {
            code: string_from(validation_code(first.code)),
            path: Some(first.path.clone()),
            message: first.message.clone(),
        }
    } else {
        ProfileCommandError {
            code: string_from("SCHEMA_MISMATCH"),
            path: None,
            message: string_from(errors.message()),
        }
    }
}

// ----------------------------------------------------------------------------
// Providers
// ----------------------------------------------------------------------------
/// The summary providers a profile can be generated with.
#[derive(Debug, Clone, Copy, PartialEq, Eq, Structural)]
pub enum SummaryProviderKind {
    OpenAI,
    Claude,
    Groq,
    OpenRouter,
    Ollama,
    BuiltInAI,
    CustomOpenAI,
}

/// A loopback endpoint: `localhost`, `127.0.0.1` or `[::1]` right after
/// the scheme, ignoring ASCII case.
pub open spec fn is_local_endpoint(endpoint: Seq<char>) -> bool {
    let l = text::ascii_lower(endpoint);
    text::contains(l, "://localhost"@) || text::contains(l, "://127.0.0.1"@) || text::contains(
        l,
        "://[::1]"@,
    )
}

pub fn endpoint_is_local(endpoint: &str) -> (r: bool)
    ensures
        r == is_local_endpoint(endpoint@),
{
    let lowercase = to_ascii_lowercase(endpoint);
    str_contains(lowercase.as_str(), "://localhost") || str_contains(
        lowercase.as_str(),
        "://127.0.0.1",
    ) || str_contains(lowercase.as_str(), "://[::1]")
}

pub open spec fn fixed_endpoint(p: SummaryProviderKind) -> Option<Seq<char>> {
    match p {
        SummaryProviderKind::OpenAI => Some("https://api.openai.com/v1/chat/completions"@),
        SummaryProviderKind::Claude => Some("https://api.anthropic.com/v1/messages"@),
        SummaryProviderKind::Groq => Some("https://api.groq.com/openai/v1/chat/completions"@),
        SummaryProviderKind::OpenRouter => Some("https://openrouter.ai/api/v1/chat/completions"@),
        _ => None,
    }
}

pub fn fixed_provider_endpoint(provider: SummaryProviderKind) -> (r: Option<&'static str>)
    ensures
        match r {
            Some(s) => fixed_endpoint(provider) == Some(s@),
            None => fixed_endpoint(provider) is None,
        },
{
    match provider {
        SummaryProviderKind::OpenAI => Some("https://api.openai.com/v1/chat/completions"),
        SummaryProviderKind::Claude => Some("https://api.anthropic.com/v1/messages"),
        SummaryProviderKind::Groq => Some("https://api.groq.com/openai/v1/chat/completions"),
        SummaryProviderKind::OpenRouter => Some("https://openrouter.ai/api/v1/chat/completions"),
        _ => None,
    }
}

/// The token budget of a provider; for the built-in model, its context
/// size less 300 (1748 when the model is unknown).
pub fn provider_token_threshold(provider: SummaryProviderKind, built_in_context_size: Option<usize>) -> (r:
    usize)
    ensures
        provider == SummaryProviderKind::BuiltInAI ==> r == match built_in_context_size {
            Some(c) => if c >= 300 {
                (c - 300) as usize
            } else {
                0usize
            },
            None => 1748usize,
        },
        provider == SummaryProviderKind::Ollama ==> r == 4000,
        provider != SummaryProviderKind::BuiltInAI && provider != SummaryProviderKind::Ollama ==> r
            == 100000,
{
    match provider {
        SummaryProviderKind::BuiltInAI => match built_in_context_size {
            Some(c) => c.saturating_sub(300),
            None => 1748,
        },
        SummaryProviderKind::Ollama => 4000,
        _ => 100000,
    }
}

/// The endpoint a provider is reached at: a custom endpoint, else the
/// Ollama endpoint, else the provider's fixed endpoint.
pub open spec fn effective_endpoint(
    provider: SummaryProviderKind,
    custom_endpoint: Option<Seq<char>>,
    ollama_endpoint: Option<Seq<char>>,
) -> Option<Seq<char>> {
    match custom_endpoint {
        Some(e) => Some(e),
        None => match ollama_endpoint {
            Some(e) => Some(e),
            None => fixed_endpoint(provider),
        },
    }
}

/// Remote providers need explicit cloud consent; the built-in model never
/// does, and Ollama or a custom endpoint only when it is not loopback.
pub open spec fn needs_cloud_consent(provider: SummaryProviderKind, endpoint: Option<Seq<char>>) -> bool {
    match provider {
        SummaryProviderKind::BuiltInAI => false,
        SummaryProviderKind::Ollama | SummaryProviderKind::CustomOpenAI => match endpoint {
            Some(e) => !is_local_endpoint(e),
            None => false,
        },
        _ => true,
    }
}

/// The endpoint and the refusal, if any, of a provider access request.
pub open spec fn access_rule(
    provider: SummaryProviderKind,
    api_key: Seq<char>,
    custom_endpoint: Option<Seq<char>>,
    ollama_endpoint: Option<Seq<char>>,
    cloud_consent: bool,
) -> Result<Option<Seq<char>>, Seq<char>> {
    let local_kind = provider == SummaryProviderKind::Ollama || provider
        == SummaryProviderKind::BuiltInAI || provider == SummaryProviderKind::CustomOpenAI;
    let ollama = if provider == SummaryProviderKind::Ollama {
        match ollama_endpoint {
            Some(e) => Some(e),
            None => Some(DEFAULT_OLLAMA_ENDPOINT@),
        }
    } else {
        None
    };
    let endpoint = effective_endpoint(provider, custom_endpoint, ollama);
    if !local_kind && api_key.len() == 0 {
        Err("PROVIDER_UNAVAILABLE"@)
    } else if needs_cloud_consent(provider, endpoint) && !cloud_consent {
        Err("CLOUD_CONSENT_REQUIRED"@)
    } else {
        Ok(endpoint)
    }
}

/// Decides whether a provider may be used for a profile evaluation or
/// generation, and at which endpoint.
pub fn resolve_provider_access(
    provider: SummaryProviderKind,
    api_key: &str,
    custom_endpoint: Option<&str>,
    ollama_endpoint: Option<&str>,
    cloud_consent: bool,
) -> (r: Result<Option<String>, ProfileCommandError>)
    ensures
        match access_rule(
            provider,
            api_key@,
            match custom_endpoint {
                Some(e) => Some(e@),
                None => None,
            },
            match ollama_endpoint {
                Some(e) => Some(e@),
                None => None,
            },
            cloud_consent,
        ) {
            Ok(e) => r matches Ok(x) && canonical::opt_view(x) == e,
            Err(code) => r matches Err(err) && err.code@ == code && err.path is None && err.message@
                == (if code == "PROVIDER_UNAVAILABLE"@ {
                "API key is not configured for the selected provider"@
            } else {
                "evaluation or generation would send transcript content to a remote provider"@
            }),
        },
{
    proof {
        reveal_strlit("PROVIDER_UNAVAILABLE");
        reveal_strlit("CLOUD_CONSENT_REQUIRED");
        assert("CLOUD_CONSENT_REQUIRED"@.len() != "PROVIDER_UNAVAILABLE"@.len());
    }
    let local_kind = provider == SummaryProviderKind::Ollama || provider
        == SummaryProviderKind::BuiltInAI || provider == SummaryProviderKind::CustomOpenAI;
    if !local_kind && api_key.is_empty() {
        return Err(
            ProfileCommandError::new(
                "PROVIDER_UNAVAILABLE",
                string_from("API key is not configured for the selected provider"),
            ),
        );
    }
    let ollama: Option<String> = if provider == SummaryProviderKind::Ollama {
        match ollama_endpoint {
            Some(e) => Some(string_from(e)),
            None => Some(string_from(DEFAULT_OLLAMA_ENDPOINT)),
        }
    } else {
        None
    };
    let endpoint: Option<String> = match custom_endpoint {
        Some(e) => Some(string_from(e)),
        None => match ollama {
            Some(e) => Some(e),
            None => match fixed_provider_endpoint(provider) {
                Some(e) => Some(string_from(e)),
                None => None,
            },
        },
    };
    let requires_consent = match provider {
        SummaryProviderKind::BuiltInAI => false,
        SummaryProviderKind::Ollama | SummaryProviderKind::CustomOpenAI => match &endpoint {
            Some(e) => !endpoint_is_local(e.as_str()),
            None => false,
        },
        _ => true,
    };
    if requires_consent && !cloud_consent {
        return Err(
            ProfileCommandError::new(
                "CLOUD_CONSENT_REQUIRED",
                string_from(
                    "evaluation or generation would send transcript content to a remote provider",
                ),
            ),
        );
    }
    Ok(endpoint)
}

/// The fingerprint of an endpoint: the digest of its canonical JSON string.
pub open spec fn endpoint_fingerprint_digest(endpoint: Seq<char>) -> Seq<char> {
    digest::domain_digest(
        utf8::encode_utf8(PROVIDER_ENDPOINT_HASH_DOMAIN@),
        utf8::encode_utf8(canonical::json_string(endpoint)),
    )
}

pub fn endpoint_fingerprint(endpoint: &str) -> (r: Result<String, HashError>)
    ensures
        r matches Ok(s) && s@ == endpoint_fingerprint_digest(endpoint@) && digest::is_sha256_digest(
            s@,
        ),
{
    let mut text = String::new();
    canonical::write_string(&mut text, endpoint);
    Ok(digest::hash_with_domain(PROVIDER_ENDPOINT_HASH_DOMAIN, text.as_str().as_bytes()))
}

// ----------------------------------------------------------------------------
// Stored summaries
// ----------------------------------------------------------------------------
pub open spec fn drop_blank_prefix(lines: Seq<Seq<char>>) -> Seq<Seq<char>>
    decreases lines.len(),
{
    if lines.len() > 0 && text::is_blank(lines[0]) {
        drop_blank_prefix(lines.drop_first())
    } else {
        lines
    }
}

pub open spec fn join_lines(lines: Seq<Seq<char>>) -> Seq<char>
    decreases lines.len(),
{
    if lines.len() == 0 {
        Seq::empty()
    } else if lines.len() == 1 {
        lines[0]
    } else {
        join_lines(lines.drop_last()) + "\n"@ + lines.last()
    }
}

/// The stored body of a generated summary: a leading level-one title line
/// and the blank lines after it are dropped; other text is kept as is.
pub open spec fn stripped_title(md: Seq<char>) -> Seq<char> {
    let lines = rendering::md_lines(md);
    if lines.len() > 0 && text::starts_with(text::trim_start(lines[0]), "# "@) {
        join_lines(drop_blank_prefix(lines.drop_first()))
    } else {
        md
    }
}

pub fn strip_title(markdown: &str) -> (r: String)
    ensures
        r@ == stripped_title(markdown@),
{
    let lines = rendering::split_lines(markdown);
    let ghost lv = rendering::md_lines(markdown@);
    proof {
        assert(canonical::string_views(lines@).len() == lines@.len());
    }
    if lines.len() == 0 {
        return string_from(markdown);
    }
    let first = text::trim_start_string(lines[0].as_str());
    proof {
        assert(lv[0] == lines@[0]@);
    }
    if !str_starts_with(first.as_str(), "# ") {
        return string_from(markdown);
    }
    let mut k: usize = 1;
    proof {
        assert(lv.subrange(1, lv.len() as int) =~= lv.drop_first());
    }
    while k < lines.len() && str_is_blank(lines[k].as_str())
        invariant
            canonical::string_views(lines@) == lv,
            lv.len() == lines@.len(),
            1 <= k <= lines@.len(),
            drop_blank_prefix(lv.subrange(k as int, lv.len() as int)) == drop_blank_prefix(
                lv.drop_first(),
            ),
        decreases lines.len() - k,
    {
        proof {
            assert(lv[k as int] == lines@[k as int]@);
            assert(lv.subrange(k as int, lv.len() as int).drop_first() =~= lv.subrange(
                k + 1,
                lv.len() as int,
            ));
        }
        k += 1;
    }
    let ghost rest = lv.subrange(k as int, lv.len() as int);
    proof {
        if k < lines.len() {
            assert(lv[k as int] == lines@[k as int]@);
            assert(rest[0] == lv[k as int]);
        }
        assert(drop_blank_prefix(rest) == rest);
    }
    let mut out = String::new();
    let mut i: usize = k;
    proof {
        assert(rest.subrange(0, 0) =~= Seq::<Seq<char>>::empty());
    }
    while i < lines.len()
        invariant
            canonical::string_views(lines@) == lv,
            lv.len() == lines@.len(),
            k <= i <= lines@.len(),
            rest == lv.subrange(k as int, lv.len() as int),
            out@ == join_lines(rest.subrange(0, i - k)),
        decreases lines.len() - i,
    {
        if i > k {
            push_str(&mut out, "\n");
        }
        push_str(&mut out, lines[i].as_str());
        proof {
            let next = rest.subrange(0, i - k + 1);
            assert(next.drop_last() =~= rest.subrange(0, i - k));
            assert(next.last() == lv[i as int]);
            assert(lv[i as int] == lines@[i as int]@);
            assert(out@ =~= join_lines(next));
        }
        i += 1;
    }
    proof {
        assert(rest.subrange(0, rest.len() as int) =~= rest);
    }
    out
}


// ----------------------------------------------------------------------------
// Evaluation baseline and generation playbook
// ----------------------------------------------------------------------------
/// Which profile version an evaluation compares the candidate with.
#[derive(Debug, Clone, PartialEq, Eq)]
pub enum BaselineSource {
    /// No version of the profile is active: there is no baseline.
    NoBaseline,
    /// The candidate is the active version: it is its own baseline.
    Candidate,
    /// Another version is active: it is loaded by its digest.
    Stored(String),
}

/// The active version of a profile is the baseline of an evaluation.
pub fn evaluation_baseline(active_version_hash: Option<&str>, candidate_version_hash: &str) -> (r:
    BaselineSource)
    ensures
        match active_version_hash {
            None => r == BaselineSource::NoBaseline,
            Some(h) => if h@ == candidate_version_hash@ {
                r == BaselineSource::Candidate
            } else {
                r matches BaselineSource::Stored(s) && s@ == h@
            },
        },
{
    match active_version_hash {
        None => BaselineSource::NoBaseline,
        Some(h) => if text::str_eq(h, candidate_version_hash) {
            BaselineSource::Candidate
        } else {
            BaselineSource::Stored(string_from(h))
        },
    }
}

pub open spec fn has_playbook(playbooks: Seq<MeetingPlaybook>, playbook_id: u128) -> bool {
    exists|i: int| 0 <= i < playbooks.len() && (#[trigger] playbooks[i]).id == playbook_id
}

/// A summary can only be generated with a playbook of the active version.
pub fn require_playbook(profile: &ExpertProfileVersion, playbook_id: u128) -> (r: Result<
    (),
    ProfileCommandError,
>)
    ensures
        has_playbook(profile.playbooks@, playbook_id) ==> r is Ok,
        !has_playbook(profile.playbooks@, playbook_id) ==> (r matches Err(e) && e.code@
            == "INVALID_PLAYBOOK"@ && e.path is None && e.message@
            == "selected playbook is not part of the active profile version"@),
{
    let mut i: usize = 0;
    while i < profile.playbooks.len()
        invariant
            0 <= i <= profile.playbooks@.len(),
            forall|j: int| 0 <= j < i ==> (#[trigger] profile.playbooks@[j]).id != playbook_id,
        decreases profile.playbooks.len() - i,
    {
        if profile.playbooks[i].id == playbook_id {
            return Ok(());
        }
        i += 1;
    }
    Err(
        ProfileCommandError::new(
            "INVALID_PLAYBOOK",
            string_from("selected playbook is not part of the active profile version"),
        ),
    )
}

/// An active profile must have the model binding it was activated with.
pub fn require_activation_binding<T>(binding: Option<T>) -> (r: Result<T, ProfileCommandError>)
    ensures
        match binding {
            Some(b) => r == Ok::<T, ProfileCommandError>(b),
            None => r matches Err(e) && e.code@ == "DIGEST_MISMATCH"@ && e.path is None && e.message@
                == "active profile has no model binding"@,
        },
{
    match binding {
        Some(b) => Ok(b),
        None => Err(
            ProfileCommandError::new("DIGEST_MISMATCH", string_from("active profile has no model binding")),
        ),
    }
}

} // verus!
