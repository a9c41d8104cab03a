//! LLM evaluation of agent events: the provider settings, the requests sent
//! to OpenAI, Anthropic and Ollama, the interpretation of their replies,
//! and the classified error messages.
use vstd::prelude::*;
use crate::json::{
    JsonValue, JsonModel, get, get_opt, as_str, json_get, json_get_opt, json_as_str, json_as_bool,
    as_bool, opt_model, slices_equal, object_of, array_of, string_value, entry,
};
use crate::transcript::opt_view;
use crate::process_log::{views};
use crate::text::{
    chars_of, decimal, ends_with, ends_with_chars, first_index_of, last_index_of, lemma_first_index,
    lemma_last_index, lemma_no_first_index, lemma_no_last_index, is_blank, is_blank_chars, push_chars, push_decimal,
    push_str, string_from_chars, trim, trim_chars,
};

verus! {

broadcast use vstd::string::group_string_axioms;

/// How events are evaluated: the switch, the sampling rate, and the
/// provider connection.
#[derive(Debug)]
pub struct EvalConfig {
    pub enabled: bool,
    pub sampling_rate: u32,
    pub provider: String,
    pub model: String,
    pub base_url: String,
    pub api_key: Option<String>,
    pub timeout_ms: u64,
}

/// The model of an [`EvalConfig`].
pub struct EvalConfigModel {
    pub enabled: bool,
    pub sampling_rate: u32,
    pub provider: Seq<char>,
    pub model: Seq<char>,
    pub base_url: Seq<char>,
    pub api_key: Option<Seq<char>>,
    pub timeout_ms: u64,
}

impl View for EvalConfig {
    type V = EvalConfigModel;

    open spec fn view(&self) -> EvalConfigModel {
        EvalConfigModel {
            enabled: self.enabled,
            sampling_rate: self.sampling_rate,
            provider: self.provider@,
            model: self.model@,
            base_url: self.base_url@,
            api_key: match self.api_key {
                Some(k) => Some(k@),
                None => None,
            },
            timeout_ms: self.timeout_ms,
        }
    }
}

/// The settings used when nothing is stored.
pub open spec fn default_eval_config() -> EvalConfigModel {
    EvalConfigModel {
        enabled: true,
        sampling_rate: 1,
        provider: "openai"@,
        model: "gpt-4o-mini"@,
        base_url: "https://api.openai.com/v1"@,
        api_key: None,
        timeout_ms: 8000,
    }
}

impl Default for EvalConfig {
    fn default() -> (c: Self)
        ensures
            c@ == default_eval_config(),
    {
        EvalConfig {
            enabled: true,
            sampling_rate: 1,
            provider: "openai".to_string(),
            model: "gpt-4o-mini".to_string(),
            base_url: "https://api.openai.com/v1".to_string(),
            api_key: None,
            timeout_ms: 8000,
        }
    }
}

/// The event handed to a provider.
#[derive(Debug)]
pub struct EvaluationInput {
    pub event_id: String,
    pub event_type: String,
    pub payload: JsonValue,
}

/// What a provider concluded about an event.
#[derive(Debug)]
pub struct StructuredEvaluation {
    pub risk_level: String,
    pub risk_category: String,
    pub efficiency_level: String,
    pub suggestion: String,
}

/// The providers that can evaluate events.
#[derive(Debug)]
pub enum Provider {
    OpenAi,
    Anthropic,
    Ollama,
}

/// The provider a configured name selects.
pub open spec fn provider_of(name: Seq<char>) -> Option<Provider> {
    if name == "openai"@ {
        Some(Provider::OpenAi)
    } else if name == "anthropic"@ {
        Some(Provider::Anthropic)
    } else if name == "ollama"@ {
        Some(Provider::Ollama)
    } else {
        None
    }
}

pub fn provider_from_name(name: &str) -> (r: Option<Provider>)
    ensures
        r == provider_of(name@),
{
    let v = chars_of(name);
    let a = chars_of("openai");
    let b = chars_of("anthropic");
    let c = chars_of("ollama");
    if slices_equal(&v, &a) {
        Some(Provider::OpenAi)
    } else if slices_equal(&v, &b) {
        Some(Provider::Anthropic)
    } else if slices_equal(&v, &c) {
        Some(Provider::Ollama)
    } else {
        None
    }
}

/// The name of a provider, as it appears in messages.
pub open spec fn provider_name(p: Provider) -> Seq<char> {
    match p {
        Provider::OpenAi => "openai"@,
        Provider::Anthropic => "anthropic"@,
        Provider::Ollama => "ollama"@,
    }
}

pub fn provider_name_str(p: &Provider) -> (r: &'static str)
    ensures
        r@ == provider_name(*p),
{
    match p {
        Provider::OpenAi => "openai",
        Provider::Anthropic => "anthropic",
        Provider::Ollama => "ollama",
    }
}

// ---------------------------------------------------------------------
// Classified errors
// ---------------------------------------------------------------------

/// The status part of a classified error.
pub open spec fn status_text(status: Option<u16>) -> Seq<char> {
    match status {
        Some(s) => decimal(s as nat),
        None => "none"@,
    }
}

/// `error_type=<category> status=<status> event_id=<id> message=<message> backtrace=<backtrace>`.
pub open spec fn classified_text(
    category: Seq<char>,
    message: Seq<char>,
    event_id: Seq<char>,
    status: Option<u16>,
    backtrace: Seq<char>,
) -> Seq<char> {
    "error_type="@ + category + " status="@ + status_text(status) + " event_id="@ + event_id
        + " message="@ + message + " backtrace="@ + backtrace
}

/// `text` is the classified error text for these parts, whatever the backtrace.
pub open spec fn classified(
    text: Seq<char>,
    category: Seq<char>,
    message: Seq<char>,
    event_id: Seq<char>,
    status: Option<u16>,
) -> bool {
    exists|bt: Seq<char>| text == #[trigger] classified_text(category, message, event_id, status, bt)
}

/// The classified error text for a given backtrace text.
pub fn classified_error_with(category: &str, message: &str, event_id: &str, status: Option<u16>, backtrace: &str) -> (r: String)
    ensures
        r@ == classified_text(category@, message@, event_id@, status, backtrace@),
{
    let mut v: Vec<char> = Vec::new();
    push_str(&mut v, "error_type=");
    push_str(&mut v, category);
    push_str(&mut v, " status=");
    match status {
        Some(s) => push_decimal(&mut v, s as u64),
        None => push_str(&mut v, "none"),
    }
    push_str(&mut v, " event_id=");
    push_str(&mut v, event_id);
    push_str(&mut v, " message=");
    push_str(&mut v, message);
    push_str(&mut v, " backtrace=");
    push_str(&mut v, backtrace);
    string_from_chars(&v)
}

/// `format!("{:?}", Backtrace::capture())`: depends on the environment
/// (`RUST_BACKTRACE`) and on the machine, so nothing is stated of it.
#[verifier::external_body]
fn capture_backtrace_text() -> String {
    format!("{:?}", std::backtrace::Backtrace::capture())
}

/// An error message classified by `category`, with the captured backtrace appended.
pub fn classified_error(category: &str, message: &str, event_id: &str, status: Option<u16>) -> (r: String)
    ensures
        classified(r@, category@, message@, event_id@, status),
{
    let bt = capture_backtrace_text();
    let r = classified_error_with(category, message, event_id, status, bt.as_str());
    assert(r@ == classified_text(category@, message@, event_id@, status, bt@));
    r
}

/// The category of an unsuccessful HTTP status.
pub open spec fn http_status_category(status: u16) -> Seq<char> {
    if status == 401 || status == 403 {
        "auth"@
    } else if status == 429 {
        "rate_limit"@
    } else {
        "provider"@
    }
}

/// The message of an unsuccessful provider reply.
pub open spec fn http_status_message(provider: Seq<char>, status: u16, body: Seq<char>) -> Seq<char> {
    "provider="@ + provider + " status="@ + decimal(status as nat) + " body="@ + body
}

/// Classifies an unsuccessful reply: `auth` for 401 and 403, `rate_limit`
/// for 429, `provider` otherwise.
pub fn classify_http_status(provider: &str, status: u16, body: &str, event_id: &str) -> (r: String)
    ensures
        classified(r@, http_status_category(status), http_status_message(provider@, status, body@), event_id@, Some(status)),
{
    let category = if status == 401 || status == 403 {
        "auth"
    } else if status == 429 {
        "rate_limit"
    } else {
        "provider"
    };
    let mut m: Vec<char> = Vec::new();
    push_str(&mut m, "provider=");
    push_str(&mut m, provider);
    push_str(&mut m, " status=");
    push_decimal(&mut m, status as u64);
    push_str(&mut m, " body=");
    push_str(&mut m, body);
    let message = string_from_chars(&m);
    classified_error(category, message.as_str(), event_id, Some(status))
}

/// The category of a request that got no reply.
pub open spec fn request_failure_category(is_timeout: bool) -> Seq<char> {
    if is_timeout { "network_timeout"@ } else { "network"@ }
}

/// The message of a request that got no reply.
pub open spec fn request_failure_message(provider: Seq<char>, error_debug: Seq<char>) -> Seq<char> {
    "provider="@ + provider + " request failed: "@ + error_debug
}

/// Classifies a request that failed before any reply: `network_timeout`
/// when it timed out, `network` otherwise.
pub fn classify_request_failure(provider: &str, is_timeout: bool, error_debug: &str, event_id: &str) -> (r: String)
    ensures
        classified(r@, request_failure_category(is_timeout), request_failure_message(provider@, error_debug@), event_id@, None),
{
    let category = if is_timeout { "network_timeout" } else { "network" };
    let mut m: Vec<char> = Vec::new();
    push_str(&mut m, "provider=");
    push_str(&mut m, provider);
    push_str(&mut m, " request failed: ");
    push_str(&mut m, error_debug);
    let message = string_from_chars(&m);
    classified_error(category, message.as_str(), event_id, None)
}

// ---------------------------------------------------------------------
// Endpoints and timeouts
// ---------------------------------------------------------------------

/// `s` without its trailing `c` characters.
pub open spec fn trim_end_char(s: Seq<char>, c: char) -> Seq<char>
    decreases s.len(),
{
    if s.len() > 0 && s.last() == c { trim_end_char(s.drop_last(), c) } else { s }
}

/// The endpoint of a provider: the configured base URL (the default one when
/// blank), trimmed, followed by `path` unless it already ends with it
/// (trailing slashes of the base are dropped before `path` is appended).
pub open spec fn resolved_endpoint(base_url: Seq<char>, default_base: Seq<char>, path: Seq<char>) -> Seq<char> {
    let base = if is_blank(base_url) { default_base } else { trim(base_url) };
    if ends_with(base, path) { base } else { trim_end_char(base, '/') + path }
}

pub fn resolve_endpoint(base_url: &str, default_base: &str, path: &str) -> (r: String)
    ensures
        r@ == resolved_endpoint(base_url@, default_base@, path@),
{
    let raw = chars_of(base_url);
    let base: Vec<char> = if is_blank_chars(&raw) { chars_of(default_base) } else { trim_chars(&raw) };
    let p = chars_of(path);
    if ends_with_chars(&base, &p) {
        return string_from_chars(&base);
    }
    let mut end = base.len();
    assert(base@.take(end as int) =~= base@);
    while end > 0 && base[end - 1] == '/'
        invariant
            end <= base@.len(),
            trim_end_char(base@, '/') == trim_end_char(base@.take(end as int), '/'),
        decreases end,
    {
        assert(base@.take(end as int).drop_last() =~= base@.take(end - 1));
        end = end - 1;
    }
    let mut out: Vec<char> = Vec::new();
    let mut i: usize = 0;
    while i < end
        invariant
            i <= end <= base@.len(),
            out@ == base@.take(i as int),
        decreases end - i,
    {
        out.push(base[i]);
        i = i + 1;
        assert(out@ =~= base@.take(i as int));
    }
    push_chars(&mut out, &p);
    string_from_chars(&out)
}

/// Law: a resolved endpoint always ends with the requested path.
pub proof fn lemma_endpoint_ends_with_path(base_url: Seq<char>, default_base: Seq<char>, path: Seq<char>)
    ensures
        ends_with(resolved_endpoint(base_url, default_base, path), path),
{
    let base = if is_blank(base_url) { default_base } else { trim(base_url) };
    if !ends_with(base, path) {
        let r = trim_end_char(base, '/') + path;
        assert(r.subrange(r.len() - path.len(), r.len() as int) =~= path);
    }
}

/// The HTTP client timeout: the configured one kept within 500..=120000 ms.
pub open spec fn client_timeout(timeout_ms: u64) -> u64 {
    if timeout_ms < 500 { 500 } else if timeout_ms > 120000 { 120000 } else { timeout_ms }
}

pub fn client_timeout_ms(timeout_ms: u64) -> (r: u64)
    ensures
        r == client_timeout(timeout_ms),
{
    if timeout_ms < 500 { 500 } else if timeout_ms > 120000 { 120000 } else { timeout_ms }
}

// ---------------------------------------------------------------------
// Requests
// ---------------------------------------------------------------------

/// The instruction given to every provider.
pub open spec fn system_prompt() -> Seq<char> {
    "你是代码行为评估器。只返回 JSON，字段必须包含 risk_level,risk_category,efficiency_level,suggestion。"@
}

fn system_prompt_string() -> (s: String)
    ensures
        s@ == system_prompt(),
{
    "你是代码行为评估器。只返回 JSON，字段必须包含 risk_level,risk_category,efficiency_level,suggestion。".to_string()
}

/// The user prompt for an event: its id, its type and its (redacted) payload text.
pub open spec fn prompt_text(event_id: Seq<char>, event_type: Seq<char>, payload_text: Seq<char>) -> Seq<char> {
    "请评估以下事件并输出 JSON:\nevent_id: "@ + event_id + "\nevent_type: "@ + event_type
        + "\npayload: "@ + payload_text + "\n仅输出 JSON。"@
}

/// Builds the user prompt; `payload_text` is the compact JSON text of the
/// payload after redaction of secrets.
pub fn build_prompt(event_id: &str, event_type: &str, payload_text: &str) -> (r: String)
    ensures
        r@ == prompt_text(event_id@, event_type@, payload_text@),
{
    let mut v: Vec<char> = Vec::new();
    push_str(&mut v, "请评估以下事件并输出 JSON:\nevent_id: ");
    push_str(&mut v, event_id);
    push_str(&mut v, "\nevent_type: ");
    push_str(&mut v, event_type);
    push_str(&mut v, "\npayload: ");
    push_str(&mut v, payload_text);
    push_str(&mut v, "\n仅输出 JSON。");
    string_from_chars(&v)
}

/// A chat message `{"role": role, "content": content}`.
pub open spec fn message_model(role: Seq<char>, content: Seq<char>) -> JsonModel {
    JsonModel::Object(seq![("role"@, JsonModel::Str(role)), ("content"@, JsonModel::Str(content))])
}

fn message_value(role: &str, content: &str) -> (r: JsonValue)
    ensures
        r@ == message_model(role@, content@),
{
    let mut entries: Vec<(String, JsonValue)> = Vec::new();
    entries.push(entry("role", string_value(role)));
    entries.push(entry("content", string_value(content)));
    let r = object_of(entries);
    assert(r@->Object_0 =~= message_model(role@, content@)->Object_0);
    r
}

/// The JSON body sent to a provider.
pub open spec fn request_body_model(p: Provider, model: Seq<char>, prompt: Seq<char>) -> JsonModel {
    match p {
        Provider::OpenAi => JsonModel::Object(seq![
            ("model"@, JsonModel::Str(model)),
            ("temperature"@, JsonModel::Number("0.2"@)),
            ("response_format"@, JsonModel::Object(seq![("type"@, JsonModel::Str("json_object"@))])),
            ("messages"@, JsonModel::Array(seq![
                message_model("system"@, system_prompt()),
                message_model("user"@, prompt),
            ])),
        ]),
        Provider::Anthropic => JsonModel::Object(seq![
            ("model"@, JsonModel::Str(model)),
            ("max_tokens"@, JsonModel::Number("600"@)),
            ("system"@, JsonModel::Str(system_prompt())),
            ("messages"@, JsonModel::Array(seq![message_model("user"@, prompt)])),
        ]),
        Provider::Ollama => JsonModel::Object(seq![
            ("model"@, JsonModel::Str(model)),
            ("stream"@, JsonModel::Bool(false)),
            ("format"@, JsonModel::Str("json"@)),
            ("messages"@, JsonModel::Array(seq![
                message_model("system"@, system_prompt()),
                message_model("user"@, prompt),
            ])),
        ]),
    }
}

/// Builds the JSON body sent to a provider.
pub fn request_body(p: &Provider, model: &str, prompt: &str) -> (r: JsonValue)
    ensures
        r@ == request_body_model(*p, model@, prompt@),
{
    let system = system_prompt_string();
    match p {
        Provider::OpenAi => {
            let mut format_entries: Vec<(String, JsonValue)> = Vec::new();
            format_entries.push(entry("type", string_value("json_object")));
            let format = object_of(format_entries);
            assert(format@->Object_0 =~= seq![("type"@, JsonModel::Str("json_object"@))]);
            let mut items: Vec<JsonValue> = Vec::new();
            items.push(message_value("system", system.as_str()));
            items.push(message_value("user", prompt));
            let messages = array_of(items);
            assert(messages@->Array_0 =~= seq![
                message_model("system"@, system_prompt()),
                message_model("user"@, prompt@),
            ]);
            let mut entries: Vec<(String, JsonValue)> = Vec::new();
            entries.push(entry("model", string_value(model)));
            entries.push(entry("temperature", JsonValue::Number("0.2".to_string())));
            entries.push(entry("response_format", format));
            entries.push(entry("messages", messages));
            let r = object_of(entries);
            assert(r@->Object_0 =~= request_body_model(*p, model@, prompt@)->Object_0);
            r
        }
        Provider::Anthropic => {
            let mut items: Vec<JsonValue> = Vec::new();
            items.push(message_value("user", prompt));
            let messages = array_of(items);
            assert(messages@->Array_0 =~= seq![message_model("user"@, prompt@)]);
            let mut entries: Vec<(String, JsonValue)> = Vec::new();
            entries.push(entry("model", string_value(model)));
            entries.push(entry("max_tokens", JsonValue::Number("600".to_string())));
            entries.push(entry("system", string_value(system.as_str())));
            entries.push(entry("messages", messages));
            let r = object_of(entries);
            assert(r@->Object_0 =~= request_body_model(*p, model@, prompt@)->Object_0);
            r
        }
        Provider::Ollama => {
            let mut items: Vec<JsonValue> = Vec::new();
            items.push(message_value("system", system.as_str()));
            items.push(message_value("user", prompt));
            let messages = array_of(items);
            assert(messages@->Array_0 =~= seq![
                message_model("system"@, system_prompt()),
                message_model("user"@, prompt@),
            ]);
            let mut entries: Vec<(String, JsonValue)> = Vec::new();
            entries.push(entry("model", string_value(model)));
            entries.push(entry("stream", JsonValue::Bool(false)));
            entries.push(entry("format", string_value("json")));
            entries.push(entry("messages", messages));
            let r = object_of(entries);
            assert(r@->Object_0 =~= request_body_model(*p, model@, prompt@)->Object_0);
            r
        }
    }
}

/// The default base URL of a provider.
pub open spec fn default_base(p: Provider) -> Seq<char> {
    match p {
        Provider::OpenAi => "https://api.openai.com/v1"@,
        Provider::Anthropic => "https://api.anthropic.com/v1"@,
        Provider::Ollama => "http://127.0.0.1:11434/api"@,
    }
}

/// The API path of a provider.
pub open spec fn endpoint_path(p: Provider) -> Seq<char> {
    match p {
        Provider::OpenAi => "/chat/completions"@,
        Provider::Anthropic => "/messages"@,
        Provider::Ollama => "/chat"@,
    }
}

/// An HTTP request to send to a provider.
#[derive(Debug)]
pub struct ProviderRequest {
    pub provider: Provider,
    pub endpoint: String,
    pub headers: Vec<(String, String)>,
    pub body: JsonValue,
    pub timeout_ms: u64,
}

/// The views of header pairs.
pub open spec fn headers_view(h: Seq<(String, String)>) -> Seq<(Seq<char>, Seq<char>)> {
    Seq::new(h.len(), |i: int| (h[i].0@, h[i].1@))
}

/// The headers a provider needs: the bearer token for OpenAI, the key and
/// API version for Anthropic, none for Ollama.
pub open spec fn provider_headers(p: Provider, api_key: Seq<char>) -> Seq<(Seq<char>, Seq<char>)> {
    match p {
        Provider::OpenAi => seq![("Authorization"@, "Bearer "@ + api_key)],
        Provider::Anthropic => seq![("x-api-key"@, api_key), ("anthropic-version"@, "2023-06-01"@)],
        Provider::Ollama => Seq::empty(),
    }
}

/// The configured API key, trimmed (empty when there is none).
pub open spec fn trimmed_api_key(api_key: Option<String>) -> Seq<char> {
    match api_key {
        Some(k) => trim(k@),
        None => Seq::empty(),
    }
}

/// What evaluating an event calls for.
#[derive(Debug)]
pub enum EvaluationStep {
    /// The evaluation fails without a request; the classified error.
    Fail(String),
    /// The request to send.
    Send(ProviderRequest),
}

/// The payload asks for a permanent simulated failure (`force_error: true`).
pub open spec fn forces_error(payload: JsonModel) -> bool {
    json_as_bool(json_get(payload, "force_error"@)) == Some(true)
}

/// The payload asks for one simulated transient failure (`force_error_once: true`).
pub open spec fn forces_error_once(payload: JsonModel) -> bool {
    json_as_bool(json_get(payload, "force_error_once"@)) == Some(true)
}

/// The ids of the events that already failed once on request.
pub open spec fn seen_ids(seen: Seq<String>) -> Seq<Seq<char>> {
    views(seen)
}

/// Records `event_id` as failed once; true when it had not been recorded.
pub fn should_fail_once(seen: &mut Vec<String>, event_id: &str) -> (r: bool)
    ensures
        r == !seen_ids(old(seen)@).contains(event_id@),
        seen_ids(final(seen)@) == if r { seen_ids(old(seen)@).push(event_id@) } else { seen_ids(old(seen)@) },
{
    let target = chars_of(event_id);
    let mut i: usize = 0;
    while i < seen.len()
        invariant
            i <= seen@.len(),
            target@ == event_id@,
            forall|j: int| 0 <= j < i ==> seen@[j]@ != event_id@,
        decreases seen@.len() - i,
    {
        let cur = chars_of(seen[i].as_str());
        if slices_equal(&cur, &target) {
            assert(seen_ids(seen@)[i as int] == event_id@);
            return false;
        }
        i = i + 1;
    }
    assert(!seen_ids(seen@).contains(event_id@)) by {
        if seen_ids(seen@).contains(event_id@) {
            let j = choose|j: int| 0 <= j < seen_ids(seen@).len() && seen_ids(seen@)[j] == event_id@;
            assert(seen@[j]@ == event_id@);
        }
    }
    let ghost before = seen@;
    seen.push(event_id.to_string());
    assert(seen_ids(seen@) =~= seen_ids(before).push(event_id@));
    true
}

/// Law: an event that asks for one failure fails once only.
pub proof fn lemma_fail_once_then_pass(seen: Seq<Seq<char>>, id: Seq<char>)
    ensures
        seen.push(id).contains(id),
{
    assert(seen.push(id)[seen.len() as int] == id);
}

/// The request that evaluating an event sends to provider `p`.
pub open spec fn planned_request(
    req: ProviderRequest,
    p: Provider,
    event_id: Seq<char>,
    event_type: Seq<char>,
    config: EvalConfig,
    payload_text: Seq<char>,
) -> bool {
    &&& req.provider == p
    &&& req.endpoint@ == resolved_endpoint(config.base_url@, default_base(p), endpoint_path(p))
    &&& headers_view(req.headers@) == provider_headers(p, trimmed_api_key(config.api_key))
    &&& req.body@ == request_body_model(p, config.model@, prompt_text(event_id, event_type, payload_text))
    &&& req.timeout_ms == client_timeout(config.timeout_ms)
}

/// `step` is a failure classified by these parts.
pub open spec fn fails_with(step: EvaluationStep, category: Seq<char>, message: Seq<char>, event_id: Seq<char>) -> bool {
    step matches EvaluationStep::Fail(e) && classified(e@, category, message, event_id, None)
}

/// The event fails once on request now: it asks for it and has not failed yet.
pub open spec fn fails_once_now(payload: JsonModel, event_id: Seq<char>, seen: Seq<Seq<char>>) -> bool {
    !forces_error(payload) && forces_error_once(payload) && !seen.contains(event_id)
}

/// What evaluating an event calls for: a forced failure, a forced one-time
/// failure, a configuration error (unknown provider, missing API key but for
/// Ollama), or the request to the provider.
pub open spec fn evaluation_plan(
    step: EvaluationStep,
    event_id: Seq<char>,
    event_type: Seq<char>,
    payload: JsonModel,
    config: EvalConfig,
    payload_text: Seq<char>,
    seen: Seq<Seq<char>>,
) -> bool {
    if forces_error(payload) {
        fails_with(step, "provider"@, "simulated permanent failure by force_error"@, event_id)
    } else if fails_once_now(payload, event_id, seen) {
        fails_with(step, "network"@, "simulated transient failure by force_error_once"@, event_id)
    } else {
        match provider_of(config.provider@) {
            None => fails_with(step, "config"@, "unsupported provider="@ + config.provider@, event_id),
            Some(p) => if !(p is Ollama) && trimmed_api_key(config.api_key).len() == 0 {
                fails_with(step, "config"@, provider_name(p) + " api_key is empty"@, event_id)
            } else {
                step matches EvaluationStep::Send(req) && planned_request(req, p, event_id, event_type, config, payload_text)
            },
        }
    }
}

/// Law: an OpenAI evaluation with an API key authenticates with the bearer
/// scheme: its one header is `Authorization: Bearer <trimmed key>`, and it
/// posts to the chat completions endpoint.
pub proof fn lemma_openai_uses_bearer_auth(
    step: EvaluationStep,
    event_id: Seq<char>,
    event_type: Seq<char>,
    payload: JsonModel,
    config: EvalConfig,
    payload_text: Seq<char>,
    seen: Seq<Seq<char>>,
    key: String,
)
    requires
        evaluation_plan(step, event_id, event_type, payload, config, payload_text, seen),
        !forces_error(payload),
        !fails_once_now(payload, event_id, seen),
        config.provider@ == "openai"@,
        config.api_key == Some(key),
        trim(key@).len() > 0,
    ensures
        step matches EvaluationStep::Send(req) && {
            &&& req.headers@.len() == 1
            &&& req.headers@[0].0@ == "Authorization"@
            &&& req.headers@[0].1@ == "Bearer "@ + trim(key@)
            &&& ends_with(req.endpoint@, "/chat/completions"@)
        },
{
    assert(provider_of(config.provider@) == Some(Provider::OpenAi));
    assert(trimmed_api_key(config.api_key) == trim(key@));
    assert(step is Send);
    let req = step->Send_0;
    assert(planned_request(req, Provider::OpenAi, event_id, event_type, config, payload_text));
    let hv = headers_view(req.headers@);
    assert(hv == seq![("Authorization"@, "Bearer "@ + trim(key@))]);
    assert(hv.len() == req.headers@.len());
    assert(hv[0] == (req.headers@[0].0@, req.headers@[0].1@));
    lemma_endpoint_ends_with_path(config.base_url@, default_base(Provider::OpenAi), endpoint_path(Provider::OpenAi));
}

/// Law: an Anthropic evaluation with an API key sends the key itself in
/// `x-api-key` and the API version `2023-06-01`, to the messages endpoint.
pub proof fn lemma_anthropic_uses_api_key_header(
    step: EvaluationStep,
    event_id: Seq<char>,
    event_type: Seq<char>,
    payload: JsonModel,
    config: EvalConfig,
    payload_text: Seq<char>,
    seen: Seq<Seq<char>>,
    key: String,
)
    requires
        evaluation_plan(step, event_id, event_type, payload, config, payload_text, seen),
        !forces_error(payload),
        !fails_once_now(payload, event_id, seen),
        config.provider@ == "anthropic"@,
        config.api_key == Some(key),
        trim(key@).len() > 0,
    ensures
        step matches EvaluationStep::Send(req) && {
            &&& req.headers@.len() == 2
            &&& req.headers@[0].0@ == "x-api-key"@
            &&& req.headers@[0].1@ == trim(key@)
            &&& req.headers@[1].0@ == "anthropic-version"@
            &&& req.headers@[1].1@ == "2023-06-01"@
            &&& ends_with(req.endpoint@, "/messages"@)
        },
{
    reveal_strlit("openai");
    reveal_strlit("anthropic");
    assert("anthropic"@ != "openai"@) by {
        assert("anthropic"@[0] != "openai"@[0]);
    }
    assert(provider_of(config.provider@) == Some(Provider::Anthropic));
    assert(trimmed_api_key(config.api_key) == trim(key@));
    assert(step is Send);
    let req = step->Send_0;
    assert(planned_request(req, Provider::Anthropic, event_id, event_type, config, payload_text));
    let hv = headers_view(req.headers@);
    assert(hv == seq![("x-api-key"@, trim(key@)), ("anthropic-version"@, "2023-06-01"@)]);
    assert(hv.len() == req.headers@.len());
    assert(hv[0] == (req.headers@[0].0@, req.headers@[0].1@));
    assert(hv[1] == (req.headers@[1].0@, req.headers@[1].1@));
    lemma_endpoint_ends_with_path(config.base_url@, default_base(Provider::Anthropic), endpoint_path(Provider::Anthropic));
}

/// Law: with no base URL configured, each provider is reached at its public
/// endpoint: OpenAI's chat completions, Anthropic's messages, and the local
/// Ollama chat API.
pub proof fn lemma_default_endpoints(blank: Seq<char>)
    requires
        is_blank(blank),
    ensures
        resolved_endpoint(blank, default_base(Provider::OpenAi), endpoint_path(Provider::OpenAi))
            == "https://api.openai.com/v1/chat/completions"@,
        resolved_endpoint(blank, default_base(Provider::Anthropic), endpoint_path(Provider::Anthropic))
            == "https://api.anthropic.com/v1/messages"@,
        resolved_endpoint(blank, default_base(Provider::Ollama), endpoint_path(Provider::Ollama))
            == "http://127.0.0.1:11434/api/chat"@,
{
    reveal_strlit("https://api.openai.com/v1");
    reveal_strlit("/chat/completions");
    reveal_strlit("https://api.openai.com/v1/chat/completions");
    reveal_strlit("https://api.anthropic.com/v1");
    reveal_strlit("/messages");
    reveal_strlit("https://api.anthropic.com/v1/messages");
    reveal_strlit("http://127.0.0.1:11434/api");
    reveal_strlit("/chat");
    reveal_strlit("http://127.0.0.1:11434/api/chat");
    let b1 = "https://api.openai.com/v1"@;
    let p1 = "/chat/completions"@;
    assert(!ends_with(b1, p1)) by {
        assert(b1.subrange(b1.len() - p1.len(), b1.len() as int)[0] != p1[0]);
    }
    assert(trim_end_char(b1, '/') == b1);
    assert(b1 + p1 =~= "https://api.openai.com/v1/chat/completions"@);
    let b2 = "https://api.anthropic.com/v1"@;
    let p2 = "/messages"@;
    assert(!ends_with(b2, p2)) by {
        assert(b2.subrange(b2.len() - p2.len(), b2.len() as int)[0] != p2[0]);
    }
    assert(trim_end_char(b2, '/') == b2);
    assert(b2 + p2 =~= "https://api.anthropic.com/v1/messages"@);
    let b3 = "http://127.0.0.1:11434/api"@;
    let p3 = "/chat"@;
    assert(!ends_with(b3, p3)) by {
        assert(b3.subrange(b3.len() - p3.len(), b3.len() as int)[0] != p3[0]);
    }
    assert(trim_end_char(b3, '/') == b3);
    assert(b3 + p3 =~= "http://127.0.0.1:11434/api/chat"@);
}

/// Law: a provider other than Ollama is never called without an API key:
/// a missing or blank key fails the evaluation with a `config` error naming
/// the provider; Ollama is called without credentials; every request waits
/// between 0.5 s and 2 min, the configured time when it lies in that range.
pub proof fn lemma_api_key_required(
    step: EvaluationStep,
    event_id: Seq<char>,
    event_type: Seq<char>,
    payload: JsonModel,
    config: EvalConfig,
    payload_text: Seq<char>,
    seen: Seq<Seq<char>>,
)
    requires
        evaluation_plan(step, event_id, event_type, payload, config, payload_text, seen),
        !forces_error(payload),
        !fails_once_now(payload, event_id, seen),
    ensures
        config.provider@ == "openai"@ && trimmed_api_key(config.api_key).len() == 0
            ==> fails_with(step, "config"@, "openai api_key is empty"@, event_id),
        config.provider@ == "anthropic"@ && trimmed_api_key(config.api_key).len() == 0
            ==> fails_with(step, "config"@, "anthropic api_key is empty"@, event_id),
        config.provider@ == "ollama"@ ==> (step matches EvaluationStep::Send(req) && req.headers@.len() == 0),
        step matches EvaluationStep::Send(req) ==> {
            &&& 500 <= req.timeout_ms <= 120000
            &&& (500 <= config.timeout_ms <= 120000 ==> req.timeout_ms == config.timeout_ms)
        },
{
    reveal_strlit("openai");
    reveal_strlit("anthropic");
    reveal_strlit("ollama");
    reveal_strlit(" api_key is empty");
    reveal_strlit("openai api_key is empty");
    reveal_strlit("anthropic api_key is empty");
    assert("anthropic"@ != "openai"@) by { assert("anthropic"@[0] != "openai"@[0]); }
    assert("ollama"@ != "openai"@) by { assert("ollama"@[1] != "openai"@[1]); }
    assert("ollama"@ != "anthropic"@) by { assert("ollama"@[0] != "anthropic"@[0]); }
    assert("openai"@ + " api_key is empty"@ =~= "openai api_key is empty"@);
    assert("anthropic"@ + " api_key is empty"@ =~= "anthropic api_key is empty"@);
    if config.provider@ == "ollama"@ {
        assert(provider_of(config.provider@) == Some(Provider::Ollama));
        let req = step->Send_0;
        assert(headers_view(req.headers@).len() == 0);
    }
}

/// Decides how an event is evaluated: simulated failures first, then the
/// provider's configuration, then the request (the prompt carries
/// `payload_text`, the redacted payload as JSON text). `seen` records the
/// events that already failed once on request.
pub fn evaluate(input: &EvaluationInput, config: &EvalConfig, payload_text: &str, seen: &mut Vec<String>) -> (step: EvaluationStep)
    ensures
        evaluation_plan(step, input.event_id@, input.event_type@, input.payload@, *config, payload_text@, seen_ids(old(seen)@)),
        seen_ids(final(seen)@) == if fails_once_now(input.payload@, input.event_id@, seen_ids(old(seen)@)) {
            seen_ids(old(seen)@).push(input.event_id@)
        } else {
            seen_ids(old(seen)@)
        },
{
    let force = as_bool(get(&input.payload, "force_error"));
    if force == Some(true) {
        let e = classified_error("provider", "simulated permanent failure by force_error", input.event_id.as_str(), None);
        return EvaluationStep::Fail(e);
    }
    let force_once = as_bool(get(&input.payload, "force_error_once"));
    if force_once == Some(true) {
        if should_fail_once(seen, input.event_id.as_str()) {
            let e = classified_error("network", "simulated transient failure by force_error_once", input.event_id.as_str(), None);
            return EvaluationStep::Fail(e);
        }
    }
    let provider = match provider_from_name(config.provider.as_str()) {
        Some(p) => p,
        None => {
            let mut m: Vec<char> = Vec::new();
            push_str(&mut m, "unsupported provider=");
            push_str(&mut m, config.provider.as_str());
            let message = string_from_chars(&m);
            let e = classified_error("config", message.as_str(), input.event_id.as_str(), None);
            return EvaluationStep::Fail(e);
        }
    };
    let key: Vec<char> = match &config.api_key {
        Some(k) => trim_chars(&chars_of(k.as_str())),
        None => Vec::new(),
    };
    let needs_key = match provider {
        Provider::Ollama => false,
        _ => true,
    };
    if needs_key && key.len() == 0 {
        let mut m: Vec<char> = Vec::new();
        push_str(&mut m, provider_name_str(&provider));
        push_str(&mut m, " api_key is empty");
        let message = string_from_chars(&m);
        let e = classified_error("config", message.as_str(), input.event_id.as_str(), None);
        return EvaluationStep::Fail(e);
    }
    let mut headers: Vec<(String, String)> = Vec::new();
    match provider {
        Provider::OpenAi => {
            let mut bearer: Vec<char> = Vec::new();
            push_str(&mut bearer, "Bearer ");
            push_chars(&mut bearer, &key);
            headers.push(("Authorization".to_string(), string_from_chars(&bearer)));
        }
        Provider::Anthropic => {
            headers.push(("x-api-key".to_string(), string_from_chars(&key)));
            headers.push(("anthropic-version".to_string(), "2023-06-01".to_string()));
        }
        Provider::Ollama => {}
    }
    assert(headers_view(headers@) =~= provider_headers(provider, trimmed_api_key(config.api_key)));
    let (default, path): (&str, &str) = match provider {
        Provider::OpenAi => ("https://api.openai.com/v1", "/chat/completions"),
        Provider::Anthropic => ("https://api.anthropic.com/v1", "/messages"),
        Provider::Ollama => ("http://127.0.0.1:11434/api", "/chat"),
    };
    let endpoint = resolve_endpoint(config.base_url.as_str(), default, path);
    let prompt = build_prompt(input.event_id.as_str(), input.event_type.as_str(), payload_text);
    let body = request_body(&provider, config.model.as_str(), prompt.as_str());
    EvaluationStep::Send(ProviderRequest {
        provider,
        endpoint,
        headers,
        body,
        timeout_ms: client_timeout_ms(config.timeout_ms),
    })
}

// ---------------------------------------------------------------------
// Replies
// ---------------------------------------------------------------------

/// `Value::get(i)`: the item `i` of an array; nothing for other values.
pub open spec fn json_index(v: Option<JsonModel>, i: int) -> Option<JsonModel> {
    match v {
        Some(JsonModel::Array(items)) => if 0 <= i < items.len() { Some(items[i]) } else { None },
        _ => None,
    }
}

/// The text a provider's reply carries: `choices[0].message.content` for
/// OpenAI, `content[0].text` for Anthropic, `message.content` for Ollama.
pub open spec fn reply_content(p: Provider, reply: JsonModel) -> Option<Seq<char>> {
    match p {
        Provider::OpenAi => json_as_str(json_get_opt(json_get_opt(json_index(json_get(reply, "choices"@), 0), "message"@), "content"@)),
        Provider::Anthropic => json_as_str(json_get_opt(json_index(json_get(reply, "content"@), 0), "text"@)),
        Provider::Ollama => json_as_str(json_get_opt(json_get(reply, "message"@), "content"@)),
    }
}

/// The item `i` of an array value.
pub fn index<'a>(v: Option<&'a JsonValue>, i: usize) -> (r: Option<&'a JsonValue>)
    ensures
        opt_model(r) == json_index(opt_model(v), i as int),
{
    match v {
        Some(JsonValue::Array(items)) => {
            if i < items.len() {
                Some(&items[i])
            } else {
                None
            }
        }
        _ => None,
    }
}

/// The text a provider's reply carries.
pub fn reply_content_of(p: &Provider, reply: &JsonValue) -> (r: Option<String>)
    ensures
        opt_view(r) == reply_content(*p, reply@),
{
    let found = match p {
        Provider::OpenAi => as_str(get_opt(get_opt(index(get(reply, "choices"), 0), "message"), "content")),
        Provider::Anthropic => as_str(get_opt(index(get(reply, "content"), 0), "text")),
        Provider::Ollama => as_str(get_opt(get(reply, "message"), "content")),
    };
    match found {
        Some(s) => Some(s.clone()),
        None => None,
    }
}

/// The message when a reply lacks its text.
pub open spec fn missing_content_message(p: Provider) -> Seq<char> {
    match p {
        Provider::OpenAi => "openai response missing message.content; body="@,
        Provider::Anthropic => "anthropic response missing content[0].text; body="@,
        Provider::Ollama => "ollama response missing message.content; body="@,
    }
}

fn missing_content_prefix(p: &Provider) -> (r: &'static str)
    ensures
        r@ == missing_content_message(*p),
{
    match p {
        Provider::OpenAi => "openai response missing message.content; body=",
        Provider::Anthropic => "anthropic response missing content[0].text; body=",
        Provider::Ollama => "ollama response missing message.content; body=",
    }
}

/// A successful HTTP status (2xx).
pub open spec fn is_success_status(status: u16) -> bool {
    200 <= status <= 299
}

/// Interprets a provider's reply: its HTTP status, its body text, and the
/// body parsed as JSON (or the parser's error, as debug text). An
/// unsuccessful status is classified first; then an unparsable body; then a
/// reply without its text; otherwise the text is returned.
pub fn interpret_reply(
    p: &Provider,
    status: u16,
    body: &str,
    parsed: &Result<JsonValue, String>,
    event_id: &str,
) -> (r: Result<String, String>)
    ensures
        !is_success_status(status) ==> (r matches Err(e) && classified(
            e@,
            http_status_category(status),
            http_status_message(provider_name(*p), status, body@),
            event_id@,
            Some(status),
        )),
        is_success_status(status) ==> match parsed {
            Err(pe) => r matches Err(e) && classified(
                e@,
                "parse"@,
                provider_name(*p) + " response json parse failed: "@ + pe@ + "; body="@ + body@,
                event_id@,
                None,
            ),
            Ok(v) => match reply_content(*p, v@) {
                Some(c) => r matches Ok(t) && t@ == c,
                None => r matches Err(e) && classified(e@, "parse"@, missing_content_message(*p) + body@, event_id@, None),
            },
        },
{
    let name = provider_name_str(p);
    if !(200 <= status && status <= 299) {
        return Err(classify_http_status(name, status, body, event_id));
    }
    match parsed {
        Err(pe) => {
            let mut m: Vec<char> = Vec::new();
            push_str(&mut m, name);
            push_str(&mut m, " response json parse failed: ");
            push_str(&mut m, pe.as_str());
            push_str(&mut m, "; body=");
            push_str(&mut m, body);
            let message = string_from_chars(&m);
            Err(classified_error("parse", message.as_str(), event_id, None))
        }
        Ok(v) => match reply_content_of(p, v) {
            Some(c) => Ok(c),
            None => {
                let mut m: Vec<char> = Vec::new();
                push_str(&mut m, missing_content_prefix(p));
                push_str(&mut m, body);
                let message = string_from_chars(&m);
                Err(classified_error("parse", message.as_str(), event_id, None))
            }
        },
    }
}

// ---------------------------------------------------------------------
// Structured output
// ---------------------------------------------------------------------

/// The part of `content` from its first `{` to its last `}`, when the
/// last `}` comes after the first `{`.
pub open spec fn json_object_slice(content: Seq<char>) -> Option<Seq<char>> {
    match (first_index_of(content, '{'), last_index_of(content, '}')) {
        (Some(start), Some(end)) => if end > start { Some(content.subrange(start, end + 1)) } else { None },
        _ => None,
    }
}

/// Finds the JSON object embedded in a model's output.
pub fn extract_json_object(content: &str) -> (r: Option<String>)
    ensures
        opt_view(r) == json_object_slice(content@),
{
    let v = chars_of(content);
    let mut start: usize = 0;
    while start < v.len() && v[start] != '{'
        invariant
            start <= v@.len(),
            forall|j: int| 0 <= j < start ==> v@[j] != '{',
        decreases v@.len() - start,
    {
        start = start + 1;
    }
    if start == v.len() {
        proof { lemma_no_first_index(v@, '{'); }
        return None;
    }
    proof { lemma_first_index(v@, '{', start as int); }
    let mut end: usize = v.len();
    while end > 0 && v[end - 1] != '}'
        invariant
            end <= v@.len(),
            forall|j: int| end <= j < v@.len() ==> v@[j] != '}',
        decreases end,
    {
        end = end - 1;
    }
    if end == 0 {
        proof { lemma_no_last_index(v@, '}'); }
        return None;
    }
    proof { lemma_last_index(v@, '}', end - 1); }
    if end - 1 <= start {
        return None;
    }
    let mut out: Vec<char> = Vec::new();
    let mut i: usize = start;
    while i < end
        invariant
            start <= i <= end <= v@.len(),
            out@ == v@.subrange(start as int, i as int),
        decreases end - i,
    {
        out.push(v[i]);
        i = i + 1;
        assert(out@ =~= v@.subrange(start as int, i as int));
    }
    Some(string_from_chars(&out))
}

/// The structured evaluation a model's output yields: the whole output
/// parsed as one (`direct`), else the embedded object parsed as one
/// (`embedded`, parsed from [`extract_json_object`]'s slice), else a
/// classified parse error.
pub fn parse_structured_output(
    content: &str,
    direct: Option<StructuredEvaluation>,
    embedded: Option<StructuredEvaluation>,
    event_id: &str,
) -> (r: Result<StructuredEvaluation, String>)
    ensures
        direct is Some ==> r == Ok::<StructuredEvaluation, String>(direct->0),
        direct is None && embedded is Some ==> r == Ok::<StructuredEvaluation, String>(embedded->0),
        direct is None && embedded is None ==> (r matches Err(e) && classified(
            e@,
            "parse"@,
            "model output is not valid StructuredEvaluation json: "@ + content@,
            event_id@,
            None,
        )),
{
    if let Some(d) = direct {
        return Ok(d);
    }
    if let Some(d) = embedded {
        return Ok(d);
    }
    let mut m: Vec<char> = Vec::new();
    push_str(&mut m, "model output is not valid StructuredEvaluation json: ");
    push_str(&mut m, content);
    let message = string_from_chars(&m);
    Err(classified_error("parse", message.as_str(), event_id, None))
}

/// The classified error when the HTTP client cannot be built.
pub fn client_build_error(error_debug: &str, event_id: &str) -> (r: String)
    ensures
        classified(r@, "config"@, "failed to build http client: "@ + error_debug@, event_id@, None),
{
    let mut m: Vec<char> = Vec::new();
    push_str(&mut m, "failed to build http client: ");
    push_str(&mut m, error_debug);
    let message = string_from_chars(&m);
    classified_error("config", message.as_str(), event_id, None)
}

} // verus!
