//! The chat-completions provider of live assist: endpoint rules, the request
//! body, the server-sent-events framing, and how a stream may end.
use vstd::prelude::*;

use crate::canonical;
use crate::canonical::{write_decimal, write_raw, write_string};
use crate::text;
use crate::text::{
    chars_of, push_char, push_str, replace_str, str_eq, str_is_blank, str_starts_with, string_from,
    string_from_chars, to_ascii_lowercase,
};
use vstd::utf8;

verus! {

pub const DEFAULT_ENDPOINT: &'static str = "https://api.deepseek.com/chat/completions";

pub const DEFAULT_MODEL: &'static str = "deepseek-v4-pro";

pub const STREAM_IDLE_TIMEOUT_SECONDS: u64 = 30;

pub const KIMI_K3_REASONING_TOKEN_ALLOWANCE: u32 = 1024;

pub const MAX_PROVIDER_ERROR_CHARS: usize = 240;

// ----------------------------------------------------------------------------
// Endpoints
// ----------------------------------------------------------------------------
/// What `url::Url::parse` yields for a text: its scheme and its host, or
/// nothing when the text is not a URL.
pub uninterp spec fn parsed_url(s: Seq<char>) -> Option<(Seq<char>, Option<Seq<char>>)>;

/// Calls `url::Url::parse`, then `Url::scheme` and `Url::host_str`.  The
/// result is named by `parsed_url`; nothing more is claimed of it.
#[verifier::external_body]
pub fn parse_url(s: &str) -> (r: Option<(String, Option<String>)>)
    ensures
        match r {
            Some(p) => parsed_url(s@) == Some((p.0@, canonical::opt_view(p.1))),
            None => parsed_url(s@) is None,
        },
{
    match url::Url::parse(s) {
        Ok(u) => Some((u.scheme().to_string(), u.host_str().map(|h| h.to_string()))),
        Err(_) => None,
    }
}

/// The endpoint is a URL whose host is `name`, ignoring ASCII case.
pub open spec fn endpoint_host_is(endpoint: Seq<char>, name: Seq<char>) -> bool {
    match parsed_url(endpoint) {
        Some(p) => match p.1 {
            Some(h) => text::ascii_lower(h) == text::ascii_lower(name),
            None => false,
        },
        None => false,
    }
}

fn host_is(endpoint: &str, name: &str) -> (r: bool)
    ensures
        r == endpoint_host_is(endpoint@, name@),
{
    match parse_url(endpoint) {
        Some((_, Some(host))) => {
            let a = to_ascii_lowercase(host.as_str());
            let b = to_ascii_lowercase(name);
            str_eq(a.as_str(), b.as_str())
        },
        _ => false,
    }
}

/// How a provider is named to the user: the host of its endpoint, or a
/// generic name when the endpoint has no host.
pub open spec fn provider_label_text(endpoint: Seq<char>) -> Seq<char> {
    match parsed_url(endpoint) {
        Some(p) => match p.1 {
            Some(h) => h,
            None => "configured provider"@,
        },
        None => "configured provider"@,
    }
}

pub fn provider_label(endpoint: &str) -> (r: String)
    ensures
        r@ == provider_label_text(endpoint@),
{
    match parse_url(endpoint) {
        Some((_, Some(host))) => host,
        _ => string_from("configured provider"),
    }
}

pub fn is_openai_endpoint(endpoint: &str) -> (r: bool)
    ensures
        r == endpoint_host_is(endpoint@, "api.openai.com"@),
{
    host_is(endpoint, "api.openai.com")
}

pub fn is_deepseek_endpoint(endpoint: &str) -> (r: bool)
    ensures
        r == endpoint_host_is(endpoint@, "api.deepseek.com"@),
{
    host_is(endpoint, "api.deepseek.com")
}

pub fn is_kimi_endpoint(endpoint: &str) -> (r: bool)
    ensures
        r == endpoint_host_is(endpoint@, "api.moonshot.ai"@),
{
    host_is(endpoint, "api.moonshot.ai")
}

// ----------------------------------------------------------------------------
// Configuration and errors
// ----------------------------------------------------------------------------
#[derive(Debug, Clone, PartialEq, Eq)]
pub struct AssistProviderConfig {
    pub endpoint: String,
    pub api_key: String,
    pub model: String,
}

#[derive(Debug, Clone, PartialEq, Eq)]
pub struct AssistMessage {
    pub role: &'static str,
    pub content: String,
}

#[derive(Debug, Clone, Copy, PartialEq, Eq, Structural)]
pub enum StreamCompletion {
    Stop,
    Length,
}

/// Why a provider exchange failed.
#[derive(Debug, Clone, PartialEq, Eq)]
pub enum ProviderError {
    MissingApiKey,
    InvalidEndpoint,
    UnsupportedScheme,
    EmptyKeyOrModel,
    TokenLimit,
    UnexpectedFinishReason(String),
    MissingFinishReason,
    NonUtf8Stream,
    MalformedJson,
    StreamError(String),
    ToolCallsRefused,
    EndedWithoutDone,
}

impl ProviderError {
    pub open spec fn spec_message(&self) -> Seq<char> {
        match self {
            ProviderError::MissingApiKey => "MEETING_ASSISTANT_LIVE_API_KEY is not configured"@,
            ProviderError::InvalidEndpoint => "invalid Live Assist endpoint"@,
            ProviderError::UnsupportedScheme => "Live Assist endpoint must use http or https"@,
            ProviderError::EmptyKeyOrModel => "Live Assist API key and model must not be empty"@,
            ProviderError::TokenLimit =>
                "Live Assist provider stopped because the response reached its token limit"@,
            ProviderError::UnexpectedFinishReason(reason) =>
                "Live Assist provider stopped with unexpected reason: "@ + reason@,
            ProviderError::MissingFinishReason =>
                "Live Assist provider completed without a finish reason"@,
            ProviderError::NonUtf8Stream => "Live Assist provider emitted non-UTF-8 data"@,
            ProviderError::MalformedJson => "Live Assist provider emitted malformed JSON"@,
            ProviderError::StreamError(e) => "Live Assist provider stream error: "@ + e@,
            ProviderError::ToolCallsRefused => "Live Assist does not permit provider tool calls"@,
            ProviderError::EndedWithoutDone => "Live Assist provider stream ended without [DONE]"@,
        }
    }

    /// The message shown for the error.
    pub fn message(&self) -> (r: String)
        ensures
            r@ == self.spec_message(),
    {
        match self {
            ProviderError::MissingApiKey => string_from(
                "MEETING_ASSISTANT_LIVE_API_KEY is not configured",
            ),
            ProviderError::InvalidEndpoint => string_from("invalid Live Assist endpoint"),
            ProviderError::UnsupportedScheme => string_from(
                "Live Assist endpoint must use http or https",
            ),
            ProviderError::EmptyKeyOrModel => string_from(
                "Live Assist API key and model must not be empty",
            ),
            ProviderError::TokenLimit => string_from(
                "Live Assist provider stopped because the response reached its token limit",
            ),
            ProviderError::UnexpectedFinishReason(reason) => {
                let mut m = string_from("Live Assist provider stopped with unexpected reason: ");
                push_str(&mut m, reason.as_str());
                m
            },
            ProviderError::MissingFinishReason => string_from(
                "Live Assist provider completed without a finish reason",
            ),
            ProviderError::NonUtf8Stream => string_from("Live Assist provider emitted non-UTF-8 data"),
            ProviderError::MalformedJson => string_from("Live Assist provider emitted malformed JSON"),
            ProviderError::StreamError(e) => {
                let mut m = string_from("Live Assist provider stream error: ");
                push_str(&mut m, e.as_str());
                m
            },
            ProviderError::ToolCallsRefused => string_from(
                "Live Assist does not permit provider tool calls",
            ),
            ProviderError::EndedWithoutDone => string_from(
                "Live Assist provider stream ended without [DONE]",
            ),
        }
    }
}

/// The configuration from the values of the `MEETING_ASSISTANT_LIVE_*`
/// settings: the key is required, model and endpoint have defaults, the
/// endpoint must be an http(s) URL, and key and model must not be blank.
pub open spec fn config_rule(
    api_key: Option<Seq<char>>,
    model: Option<Seq<char>>,
    endpoint: Option<Seq<char>>,
) -> Result<(Seq<char>, Seq<char>, Seq<char>), ProviderError> {
    match api_key {
        None => Err(ProviderError::MissingApiKey),
        Some(key) => {
            let m = match model {
                Some(m) => m,
                None => DEFAULT_MODEL@,
            };
            let e = match endpoint {
                Some(e) => e,
                None => DEFAULT_ENDPOINT@,
            };
            match parsed_url(e) {
                None => Err(ProviderError::InvalidEndpoint),
                Some(p) => if p.0 != "http"@ && p.0 != "https"@ {
                    Err(ProviderError::UnsupportedScheme)
                } else if text::is_blank(key) || text::is_blank(m) {
                    Err(ProviderError::EmptyKeyOrModel)
                } else {
                    Ok((e, key, m))
                },
            }
        },
    }
}

impl AssistProviderConfig {
    pub fn from_values(api_key: Option<String>, model: Option<String>, endpoint: Option<String>) -> (r:
        Result<Self, ProviderError>)
        ensures
            match config_rule(
                canonical::opt_view(api_key),
                canonical::opt_view(model),
                canonical::opt_view(endpoint),
            ) {
                Ok(v) => r matches Ok(c) && c.endpoint@ == v.0 && c.api_key@ == v.1 && c.model@ == v.2,
                Err(e) => r == Err::<AssistProviderConfig, ProviderError>(e),
            },
    {
        let api_key = match api_key {
            Some(k) => k,
            None => {
                return Err(ProviderError::MissingApiKey);
            },
        };
        let model = match model {
            Some(m) => m,
            None => string_from(DEFAULT_MODEL),
        };
        let endpoint = match endpoint {
            Some(e) => e,
            None => string_from(DEFAULT_ENDPOINT),
        };
        let scheme = match parse_url(endpoint.as_str()) {
            Some((scheme, _)) => scheme,
            None => {
                return Err(ProviderError::InvalidEndpoint);
            },
        };
        if !str_eq(scheme.as_str(), "http") && !str_eq(scheme.as_str(), "https") {
            return Err(ProviderError::UnsupportedScheme);
        }
        if str_is_blank(api_key.as_str()) || str_is_blank(model.as_str()) {
            return Err(ProviderError::EmptyKeyOrModel);
        }
        Ok(AssistProviderConfig { endpoint, api_key, model })
    }
}

impl StreamCompletion {
    /// Only a natural stop is an answer; a response cut at the token limit
    /// must be handled explicitly.
    pub fn require_stop(self) -> (r: Result<(), ProviderError>)
        ensures
            self == StreamCompletion::Stop ==> r is Ok,
            self == StreamCompletion::Length ==> r == Err::<(), ProviderError>(
                ProviderError::TokenLimit,
            ),
    {
        match self {
            StreamCompletion::Stop => Ok(()),
            StreamCompletion::Length => Err(ProviderError::TokenLimit),
        }
    }
}

/// The finish reasons a stream may end with: `stop` and `length` only.
pub fn classify_completion(finish_reason: Option<&str>) -> (r: Result<StreamCompletion, ProviderError>)
    ensures
        match finish_reason {
            None => r == Err::<StreamCompletion, ProviderError>(ProviderError::MissingFinishReason),
            Some(s) => if s@ == "stop"@ {
                r == Ok::<StreamCompletion, ProviderError>(StreamCompletion::Stop)
            } else if s@ == "length"@ {
                r == Ok::<StreamCompletion, ProviderError>(StreamCompletion::Length)
            } else {
                r matches Err(ProviderError::UnexpectedFinishReason(x)) && x@ == s@
            },
        },
{
    match finish_reason {
        None => Err(ProviderError::MissingFinishReason),
        Some(s) => if str_eq(s, "stop") {
            Ok(StreamCompletion::Stop)
        } else if str_eq(s, "length") {
            Ok(StreamCompletion::Length)
        } else {
            Err(ProviderError::UnexpectedFinishReason(string_from(s)))
        },
    }
}

// ----------------------------------------------------------------------------
// Error text from a provider
// ----------------------------------------------------------------------------
/// The first `n` characters (all of them if there are fewer).
pub open spec fn take_chars(s: Seq<char>, n: nat) -> Seq<char> {
    if s.len() <= n {
        s
    } else {
        s.subrange(0, n as int)
    }
}

pub fn truncate(value: &str, characters: usize) -> (r: String)
    ensures
        r@ == take_chars(value@, characters as nat),
{
    let v = chars_of(value);
    let end = if v.len() <= characters {
        v.len()
    } else {
        characters
    };
    let r = string_from_chars(v.as_slice(), 0, end);
    proof {
        if v@.len() <= characters {
            assert(r@ =~= value@);
        }
    }
    r
}

/// A provider's error text with every occurrence of the key replaced, cut
/// to at most 240 characters.
pub open spec fn sanitized_error(value: Seq<char>, api_key: Seq<char>) -> Seq<char> {
    take_chars(
        if api_key.len() == 0 {
            value
        } else {
            text::replace_all(value, api_key, "[REDACTED]"@)
        },
        MAX_PROVIDER_ERROR_CHARS as nat,
    )
}

/// A non-empty key holding no square bracket and not found inside the
/// `[REDACTED]` marker occurs nowhere in a sanitized error text.
pub proof fn lemma_sanitized_error_hides_key(value: Seq<char>, api_key: Seq<char>)
    requires
        api_key.len() > 0,
        forall|j: int| 0 <= j < api_key.len() ==> #[trigger] api_key[j] != '[' && api_key[j] != ']',
        !text::contains("[REDACTED]"@, api_key),
    ensures
        !text::contains(sanitized_error(value, api_key), api_key),
{
    reveal_strlit("[REDACTED]");
    let marker = "[REDACTED]"@;
    assert(marker[0] == '[' && marker.last() == ']');
    let replaced = text::replace_all(value, api_key, marker);
    let r = sanitized_error(value, api_key);
    assert forall|i: int| !#[trigger] text::occurs_at(r, api_key, i) by {
        text::lemma_replace_all_removes(value, api_key, marker, i);
        if text::occurs_at(r, api_key, i) && replaced.len() > MAX_PROVIDER_ERROR_CHARS {
            assert(r.subrange(i, i + api_key.len()) =~= replaced.subrange(i, i + api_key.len()));
        }
    }
}

pub fn sanitize_provider_error(value: &str, api_key: &str) -> (r: String)
    ensures
        r@ == sanitized_error(value@, api_key@),
{
    let redacted = if api_key.is_empty() {
        string_from(value)
    } else {
        replace_str(value, api_key, "[REDACTED]")
    };
    truncate(redacted.as_str(), MAX_PROVIDER_ERROR_CHARS)
}

// ----------------------------------------------------------------------------
// Server-sent events
// ----------------------------------------------------------------------------
/// Calls `std::str::from_utf8`: the text the bytes encode, when they are
/// valid UTF-8, and nothing otherwise.
#[verifier::external_body]
fn utf8_text(bytes: &[u8]) -> (r: Option<String>)
    ensures
        r is Some <==> utf8::valid_utf8(bytes@),
        r matches Some(s) ==> utf8::encode_utf8(s@) == bytes@,
{
    match std::str::from_utf8(bytes) {
        Ok(s) => Some(s.to_string()),
        Err(_) => None,
    }
}

pub open spec fn trim_end_newlines(l: Seq<char>) -> Seq<char>
    decreases l.len(),
{
    if l.len() > 0 && (l.last() == '\r' || l.last() == '\n') {
        trim_end_newlines(l.drop_last())
    } else {
        l
    }
}

/// The payload of one complete line: the text after `data:`, with leading
/// whitespace removed; other lines carry none.
pub open spec fn sse_payload(line: Seq<char>) -> Option<Seq<char>> {
    let l = trim_end_newlines(line);
    if text::starts_with(l, "data:"@) {
        Some(text::trim_start(l.subrange(5, l.len() as int)))
    } else {
        None
    }
}

pub open spec fn sse_payloads(lines: Seq<Seq<char>>, n: int) -> Seq<Seq<char>>
    decreases n,
{
    if n <= 0 {
        Seq::empty()
    } else {
        match sse_payload(lines[n - 1]) {
            Some(p) => sse_payloads(lines, n - 1).push(p),
            None => sse_payloads(lines, n - 1),
        }
    }
}

/// The payloads of the complete lines of a buffer.
pub open spec fn buffer_events(buf: Seq<char>) -> Seq<Seq<char>> {
    let lines = text::split_lf(buf).drop_last();
    sse_payloads(lines, lines.len() as int)
}

/// What is left of a buffer after its complete lines: the partial last line.
pub open spec fn buffer_rest(buf: Seq<char>) -> Seq<char> {
    text::split_lf(buf).last()
}

/// Framing of a server-sent-events stream: bytes go in, the payload of
/// every complete `data:` line comes out.
pub struct SseParser {
    pub pending: String,
}

impl Default for SseParser {
    fn default() -> (r: SseParser)
        ensures
            r.pending@ == Seq::<char>::empty(),
    {
        SseParser { pending: String::new() }
    }
}

fn split_pieces(s: &str) -> (r: (Vec<String>, String))
    ensures
        canonical::string_views(r.0@) == text::split_lf(s@).drop_last(),
        r.1@ == text::split_lf(s@).last(),
{
    let v = chars_of(s);
    let mut done: Vec<String> = Vec::new();
    let mut cur = String::new();
    let mut i: usize = 0;
    proof {
        assert(v@.subrange(0, 0) =~= Seq::<char>::empty());
        assert(canonical::string_views(done@) =~= text::split_lf(v@.subrange(0, 0)).drop_last());
    }
    while i < v.len()
        invariant
            v@ == s@,
            0 <= i <= v@.len(),
            canonical::string_views(done@) == text::split_lf(v@.subrange(0, i as int)).drop_last(),
            cur@ == text::split_lf(v@.subrange(0, i as int)).last(),
        decreases v.len() - i,
    {
        let ghost pre = v@.subrange(0, i as int);
        let ghost next = v@.subrange(0, i + 1);
        proof {
            assert(next.drop_last() =~= pre);
            assert(next.last() == v@[i as int]);
            text::lemma_split_lf_len(pre);
        }
        let c = v[i];
        if c == '\n' {
            let ghost prev_done = done@;
            let ghost piece = cur@;
            done.push(cur);
            cur = String::new();
            proof {
                let sp = text::split_lf(pre);
                assert(text::split_lf(next) == sp.push(Seq::<char>::empty()));
                assert(text::split_lf(next).drop_last() =~= sp);
                assert(sp =~= sp.drop_last().push(sp.last()));
                assert(canonical::string_views(done@) =~= canonical::string_views(prev_done).push(piece));
            }
        } else {
            push_char(&mut cur, c);
            proof {
                let sp = text::split_lf(pre);
                assert(text::split_lf(next) == sp.update(sp.len() - 1, sp.last().push(c)));
                assert(text::split_lf(next).drop_last() =~= sp.drop_last());
            }
        }
        i += 1;
    }
    proof {
        assert(v@.subrange(0, v@.len() as int) =~= v@);
    }
    (done, cur)
}

fn trim_end_newlines_exec(line: &str) -> (r: String)
    ensures
        r@ == trim_end_newlines(line@),
{
    let v = chars_of(line);
    let mut end = v.len();
    proof {
        assert(v@.subrange(0, end as int) =~= v@);
    }
    while end > 0 && (v[end - 1] == '\r' || v[end - 1] == '\n')
        invariant
            v@ == line@,
            0 <= end <= v@.len(),
            trim_end_newlines(v@.subrange(0, end as int)) == trim_end_newlines(line@),
        decreases end,
    {
        proof {
            assert(v@.subrange(0, end as int).drop_last() =~= v@.subrange(0, end - 1));
        }
        end -= 1;
    }
    string_from_chars(v.as_slice(), 0, end)
}

fn line_payload(line: &str) -> (r: Option<String>)
    ensures
        canonical::opt_view(r) == sse_payload(line@),
{
    let l = trim_end_newlines_exec(line);
    if str_starts_with(l.as_str(), "data:") {
        proof {
            reveal_strlit("data:");
        }
        let v = chars_of(l.as_str());
        let rest = string_from_chars(v.as_slice(), 5, v.len());
        let trimmed = text::trim_start_string(rest.as_str());
        proof {
            assert(rest@ =~= l@.subrange(5, l@.len() as int));
        }
        Some(trimmed)
    } else {
        None
    }
}

fn payloads_of(lines: &Vec<String>) -> (r: Vec<String>)
    ensures
        canonical::string_views(r@) == sse_payloads(
            canonical::string_views(lines@),
            lines@.len() as int,
        ),
{
    let ghost lv = canonical::string_views(lines@);
    let mut out: Vec<String> = Vec::new();
    proof {
        assert(canonical::string_views(out@) =~= Seq::<Seq<char>>::empty());
    }
    let mut i: usize = 0;
    while i < lines.len()
        invariant
            lv == canonical::string_views(lines@),
            0 <= i <= lines@.len(),
            canonical::string_views(out@) == sse_payloads(lv, i as int),
        decreases lines.len() - i,
    {
        proof {
            assert(lv[i as int] == lines@[i as int]@);
        }
        match line_payload(lines[i].as_str()) {
            Some(p) => {
                let ghost prev = out@;
                let ghost pv = p@;
                out.push(p);
                proof {
                    assert(canonical::string_views(out@) =~= canonical::string_views(prev).push(pv));
                }
            },
            None => {},
        }
        i += 1;
    }
    out
}

impl SseParser {
    fn drain_events(&mut self) -> (r: Vec<String>)
        ensures
            canonical::string_views(r@) == buffer_events(old(self).pending@),
            final(self).pending@ == buffer_rest(old(self).pending@),
    {
        let (lines, rest) = split_pieces(self.pending.as_str());
        proof {
            assert(canonical::string_views(lines@).len() == lines@.len());
        }
        let events = payloads_of(&lines);
        self.pending = rest;
        events
    }

    /// Appends bytes to the pending text and returns the payloads of the
    /// lines it completes; bytes that are not UTF-8 are refused and change
    /// nothing.
    pub fn push(&mut self, bytes: &[u8]) -> (r: Result<Vec<String>, ProviderError>)
        ensures
            !utf8::valid_utf8(bytes@) ==> r == Err::<Vec<String>, ProviderError>(
                ProviderError::NonUtf8Stream,
            ) && final(self).pending@ == old(self).pending@,
            utf8::valid_utf8(bytes@) ==> (r matches Ok(events) && canonical::string_views(events@)
                == buffer_events(old(self).pending@ + utf8::decode_utf8(bytes@))
                && final(self).pending@ == buffer_rest(
                old(self).pending@ + utf8::decode_utf8(bytes@),
            )),
    {
        let text = match utf8_text(bytes) {
            Some(t) => t,
            None => {
                return Err(ProviderError::NonUtf8Stream);
            },
        };
        proof {
            utf8::encode_utf8_decode_utf8(text@);
        }
        push_str(&mut self.pending, text.as_str());
        Ok(self.drain_events())
    }

    /// Ends the stream: a blank remainder yields nothing; otherwise the
    /// remainder is taken as a last complete line.
    pub fn finish(self) -> (r: Result<Vec<String>, ProviderError>)
        ensures
            text::is_blank(self.pending@) ==> (r matches Ok(events) && events@.len() == 0),
            !text::is_blank(self.pending@) ==> (r matches Ok(events) && canonical::string_views(
                events@,
            ) == buffer_events(self.pending@.push('\n'))),
    {
        let mut parser = self;
        if str_is_blank(parser.pending.as_str()) {
            return Ok(Vec::new());
        }
        push_char(&mut parser.pending, '\n');
        Ok(parser.drain_events())
    }
}

// ----------------------------------------------------------------------------
// Request body
// ----------------------------------------------------------------------------
pub open spec fn message_json(m: AssistMessage) -> Seq<char> {
    "{\"content\":"@ + canonical::json_string(m.content@) + ",\"role\":"@ + canonical::json_string(
        m.role@,
    ) + "}"@
}

pub open spec fn message_items(v: Seq<AssistMessage>) -> Seq<char>
    decreases v.len(),
{
    if v.len() == 0 {
        Seq::empty()
    } else if v.len() == 1 {
        message_json(v[0])
    } else {
        message_items(v.drop_last()) + ","@ + message_json(v.last())
    }
}

pub open spec fn is_kimi_k3(c: AssistProviderConfig) -> bool {
    endpoint_host_is(c.endpoint@, "api.moonshot.ai"@) && text::ascii_lower(c.model@)
        == text::ascii_lower("kimi-k3"@)
}

/// The completion budget: a reasoning allowance is added for Kimi K3,
/// saturating at the largest `u32`.
pub open spec fn completion_budget(c: AssistProviderConfig, max_tokens: u32) -> nat {
    if is_kimi_k3(c) {
        if max_tokens + KIMI_K3_REASONING_TOKEN_ALLOWANCE > u32::MAX {
            u32::MAX as nat
        } else {
            (max_tokens + KIMI_K3_REASONING_TOKEN_ALLOWANCE) as nat
        }
    } else {
        max_tokens as nat
    }
}

/// The streaming chat-completions request, as compact JSON with keys in
/// ascending order.  OpenAI and Kimi take `max_completion_tokens` (and Kimi
/// K3 a low reasoning effort); other providers take `max_tokens` and a
/// temperature of 0.2, and DeepSeek has thinking disabled.
pub open spec fn request_body_json(
    c: AssistProviderConfig,
    messages: Seq<AssistMessage>,
    max_tokens: u32,
) -> Seq<char> {
    let msgs = "["@ + message_items(messages) + "]"@;
    if endpoint_host_is(c.endpoint@, "api.openai.com"@) || endpoint_host_is(
        c.endpoint@,
        "api.moonshot.ai"@,
    ) {
        "{\"max_completion_tokens\":"@ + canonical::decimal(completion_budget(c, max_tokens))
            + ",\"messages\":"@ + msgs + ",\"model\":"@ + canonical::json_string(c.model@) + (if is_kimi_k3(
            c,
        ) {
            ",\"reasoning_effort\":\"low\""@
        } else {
            Seq::empty()
        }) + ",\"stream\":true}"@
    } else {
        "{\"max_tokens\":"@ + canonical::decimal(max_tokens as nat) + ",\"messages\":"@ + msgs
            + ",\"model\":"@ + canonical::json_string(c.model@) + ",\"stream\":true"@
            + ",\"temperature\":0.2"@ + (if endpoint_host_is(c.endpoint@, "api.deepseek.com"@) {
            ",\"thinking\":{\"type\":\"disabled\"}"@
        } else {
            Seq::empty()
        }) + "}"@
    }
}

fn write_messages(out: &mut String, v: &Vec<AssistMessage>)
    ensures
        final(out)@ == old(out)@ + "["@ + message_items(v@) + "]"@,
{
    let ghost start = out@;
    write_raw(out, "[");
    let ghost head = out@;
    let mut i: usize = 0;
    proof {
        assert(v@.subrange(0, 0) =~= Seq::<AssistMessage>::empty());
        assert(out@ =~= head + message_items(v@.subrange(0, 0)));
    }
    while i < v.len()
        invariant
            0 <= i <= v@.len(),
            out@ == head + message_items(v@.subrange(0, i as int)),
        decreases v.len() - i,
    {
        let ghost before = out@;
        if i > 0 {
            write_raw(out, ",");
        }
        write_raw(out, "{\"content\":");
        write_string(out, v[i].content.as_str());
        write_raw(out, ",\"role\":");
        write_string(out, v[i].role);
        write_raw(out, "}");
        proof {
            let next = v@.subrange(0, i + 1);
            assert(next.drop_last() =~= v@.subrange(0, i as int));
            assert(next.last() == v@[i as int]);
            assert(out@ =~= head + message_items(next));
        }
        i += 1;
    }
    write_raw(out, "]");
    proof {
        assert(v@.subrange(0, v@.len() as int) =~= v@);
        assert(out@ =~= start + "["@ + message_items(v@) + "]"@);
    }
}

/// The request body for a streamed completion.
pub fn request_body(config: &AssistProviderConfig, messages: &Vec<AssistMessage>, max_tokens: u32) -> (r:
    String)
    ensures
        r@ == request_body_json(*config, messages@, max_tokens),
{
    let mut out = String::new();
    let openai = is_openai_endpoint(config.endpoint.as_str());
    let kimi = is_kimi_endpoint(config.endpoint.as_str());
    if openai || kimi {
        let lowered = to_ascii_lowercase(config.model.as_str());
        let k3_name = to_ascii_lowercase("kimi-k3");
        let k3 = kimi && str_eq(lowered.as_str(), k3_name.as_str());
        let budget = if k3 {
            max_tokens.saturating_add(KIMI_K3_REASONING_TOKEN_ALLOWANCE)
        } else {
            max_tokens
        };
        write_raw(&mut out, "{\"max_completion_tokens\":");
        write_decimal(&mut out, budget as u64);
        write_raw(&mut out, ",\"messages\":");
        write_messages(&mut out, messages);
        write_raw(&mut out, ",\"model\":");
        write_string(&mut out, config.model.as_str());
        let ghost before = out@;
        if k3 {
            write_raw(&mut out, ",\"reasoning_effort\":\"low\"");
        }
        write_raw(&mut out, ",\"stream\":true}");
        proof {
            assert(out@ =~= request_body_json(*config, messages@, max_tokens));
        }
    } else {
        let deepseek = is_deepseek_endpoint(config.endpoint.as_str());
        write_raw(&mut out, "{\"max_tokens\":");
        write_decimal(&mut out, max_tokens as u64);
        write_raw(&mut out, ",\"messages\":");
        write_messages(&mut out, messages);
        write_raw(&mut out, ",\"model\":");
        write_string(&mut out, config.model.as_str());
        write_raw(&mut out, ",\"stream\":true");
        write_raw(&mut out, ",\"temperature\":0.2");
        if deepseek {
            write_raw(&mut out, ",\"thinking\":{\"type\":\"disabled\"}");
        }
        write_raw(&mut out, "}");
        proof {
            assert(out@ =~= request_body_json(*config, messages@, max_tokens));
        }
    }
    out
}

// ----------------------------------------------------------------------------
// Stream decisions
// ----------------------------------------------------------------------------
/// The parts of one streamed JSON chunk that decide what happens next: the
/// text of its `error` member, whether it carries tool calls, the content
/// delta and the finish reason of its first choice.
#[derive(Debug, Clone, PartialEq, Eq)]
pub struct StreamChunk {
    pub error: Option<String>,
    pub has_tool_calls: bool,
    pub delta: Option<String>,
    pub finish_reason: Option<String>,
}

/// What to do after one payload of the stream.
#[derive(Debug)]
pub enum StreamStep {
    /// The stream ended with `[DONE]`; this is how it completed.
    Finished(Result<StreamCompletion, ProviderError>),
    /// The stream must be abandoned.
    Failed(ProviderError),
    /// Keep reading; hand the delta, if any, to the listener.
    Continue { delta: Option<String> },
}

/// Decides on one payload.  `chunk` is the payload parsed as JSON, or
/// nothing when it is not JSON; `finish_reason` is the last reason seen.
pub fn stream_step(finish_reason: &mut Option<String>, payload: &str, chunk: Option<StreamChunk>) -> (r:
    StreamStep)
    ensures
        payload@ == "[DONE]"@ ==> *final(finish_reason) == *old(finish_reason) && (r matches StreamStep::Finished(res) && res == match *old(finish_reason) {
            None => Err::<StreamCompletion, ProviderError>(ProviderError::MissingFinishReason),
            Some(f) => if f@ == "stop"@ {
                Ok::<StreamCompletion, ProviderError>(StreamCompletion::Stop)
            } else if f@ == "length"@ {
                Ok::<StreamCompletion, ProviderError>(StreamCompletion::Length)
            } else {
                Err::<StreamCompletion, ProviderError>(ProviderError::UnexpectedFinishReason(f))
            },
        }),
        payload@ != "[DONE]"@ ==> match chunk {
            None => r == StreamStep::Failed(ProviderError::MalformedJson) && *final(finish_reason)
                == *old(finish_reason),
            Some(c) => if c.error is Some {
                r == StreamStep::Failed(ProviderError::StreamError(c.error->0))
                    && *final(finish_reason) == *old(finish_reason)
            } else if c.has_tool_calls {
                r == StreamStep::Failed(ProviderError::ToolCallsRefused) && *final(finish_reason)
                    == *old(finish_reason)
            } else {
                &&& r == StreamStep::Continue {
                    delta: match c.delta {
                        Some(d) => if d@.len() > 0 {
                            Some(d)
                        } else {
                            None
                        },
                        None => None,
                    },
                }
                &&& *final(finish_reason) == match c.finish_reason {
                    Some(f) => Some(f),
                    None => *old(finish_reason),
                }
            },
        },
{
    if str_eq(payload, "[DONE]") {
        let res = match finish_reason {
            None => Err(ProviderError::MissingFinishReason),
            Some(f) => if str_eq(f.as_str(), "stop") {
                Ok(StreamCompletion::Stop)
            } else if str_eq(f.as_str(), "length") {
                Ok(StreamCompletion::Length)
            } else {
                Err(ProviderError::UnexpectedFinishReason(f.clone()))
            },
        };
        return StreamStep::Finished(res);
    }
    let c = match chunk {
        None => {
            return StreamStep::Failed(ProviderError::MalformedJson);
        },
        Some(c) => c,
    };
    if let Some(e) = c.error {
        return StreamStep::Failed(ProviderError::StreamError(e));
    }
    if c.has_tool_calls {
        return StreamStep::Failed(ProviderError::ToolCallsRefused);
    }
    let delta = match c.delta {
        Some(d) => if !d.as_str().is_empty() {
            Some(d)
        } else {
            None
        },
        None => None,
    };
    if let Some(f) = c.finish_reason {
        *finish_reason = Some(f);
    }
    StreamStep::Continue { delta }
}

/// How a stream that ended without a further chunk completed: the parser's
/// remainder must be exactly `[DONE]`.
pub fn stream_end(pending: &Vec<String>, finish_reason: &Option<String>) -> (r: Result<
    StreamCompletion,
    ProviderError,
>)
    ensures
        !(pending@.len() == 1 && pending@[0]@ == "[DONE]"@) ==> r == Err::<
            StreamCompletion,
            ProviderError,
        >(ProviderError::EndedWithoutDone),
        (pending@.len() == 1 && pending@[0]@ == "[DONE]"@) ==> r == match *finish_reason {
            None => Err::<StreamCompletion, ProviderError>(ProviderError::MissingFinishReason),
            Some(f) => if f@ == "stop"@ {
                Ok::<StreamCompletion, ProviderError>(StreamCompletion::Stop)
            } else if f@ == "length"@ {
                Ok::<StreamCompletion, ProviderError>(StreamCompletion::Length)
            } else {
                Err::<StreamCompletion, ProviderError>(ProviderError::UnexpectedFinishReason(f))
            },
        },
{
    if pending.len() == 1 && str_eq(pending[0].as_str(), "[DONE]") {
        match finish_reason {
            None => Err(ProviderError::MissingFinishReason),
            Some(f) => if str_eq(f.as_str(), "stop") {
                Ok(StreamCompletion::Stop)
            } else if str_eq(f.as_str(), "length") {
                Ok(StreamCompletion::Length)
            } else {
                Err(ProviderError::UnexpectedFinishReason(f.clone()))
            },
        }
    } else {
        Err(ProviderError::EndedWithoutDone)
    }
}


/// The request body turns DeepSeek's thinking off exactly when the
/// endpoint's host is `api.deepseek.com`: for that host the body ends with
/// the member `"thinking":{"type":"disabled"}`, and for every other endpoint
/// it does not.
pub proof fn lemma_thinking_disabled_only_for_deepseek(
    c: AssistProviderConfig,
    messages: Seq<AssistMessage>,
    max_tokens: u32,
)
    ensures
        text::ends_with(
            request_body_json(c, messages, max_tokens),
            ",\"thinking\":{\"type\":\"disabled\"}}"@,
        ) == endpoint_host_is(c.endpoint@, "api.deepseek.com"@),
{
    let body = request_body_json(c, messages, max_tokens);
    let suffix = ",\"thinking\":{\"type\":\"disabled\"}}"@;
    reveal_strlit(",\"thinking\":{\"type\":\"disabled\"}}");
    reveal_strlit(",\"thinking\":{\"type\":\"disabled\"}");
    reveal_strlit("}");
    reveal_strlit(",\"stream\":true}");
    reveal_strlit(",\"temperature\":0.2");
    reveal_strlit("api.deepseek.com");
    reveal_strlit("api.openai.com");
    reveal_strlit("api.moonshot.ai");
    let deepseek = endpoint_host_is(c.endpoint@, "api.deepseek.com"@);
    let openai = endpoint_host_is(c.endpoint@, "api.openai.com"@);
    let moonshot = endpoint_host_is(c.endpoint@, "api.moonshot.ai"@);
    if openai || moonshot {
        if deepseek {
            let parsed = parsed_url(c.endpoint@)->0;
            let (_, host) = parsed;
            let h = host->0;
            assert(text::ascii_lower(h) == text::ascii_lower("api.deepseek.com"@));
            assert(text::ascii_lower("api.deepseek.com"@)[4] == 'd');
            assert(text::ascii_lower("api.openai.com"@)[4] == 'o');
            assert(text::ascii_lower("api.moonshot.ai"@)[4] == 'm');
        }
        let tail = ",\"stream\":true}"@;
        let head = body.subrange(0, body.len() - tail.len());
        assert(body.len() >= tail.len());
        assert(body[body.len() - 2] == 'e');
        if text::ends_with(body, suffix) {
            assert(body.subrange(body.len() - suffix.len(), body.len() as int)[suffix.len() - 2] == '}');
        }
    } else if deepseek {
        assert(body.subrange(body.len() - suffix.len(), body.len() as int) =~= suffix);
    } else {
        assert(body[body.len() - 2] == '2');
        if text::ends_with(body, suffix) {
            assert(body.subrange(body.len() - suffix.len(), body.len() as int)[suffix.len() - 2] == '}');
        }
    }
}

} // verus!
