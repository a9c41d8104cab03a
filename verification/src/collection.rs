//! The agent event collector: the events that hooks report, their
//! validation and redaction, the answers given for refused requests, the
//! sampling of events for evaluation, and the evaluation jobs and records.
use vstd::prelude::*;
use crate::evaluation::{EvalConfig, EvaluationInput, StructuredEvaluation};
use crate::json::{
    JsonValue, JsonModel, get, get_opt, as_str, json_get, json_get_opt, json_as_str, json_clone,
    opt_model, sanitize, sanitized, object_of, entry, string_value,
};
use crate::text::{is_blank, is_blank_str, push_str, string_from_chars};

verus! {

broadcast use vstd::string::group_string_axioms;

/// An event reported by a hook.
#[derive(Debug)]
pub struct IncomingEvent {
    pub event_id: String,
    pub session_id: String,
    pub project_name: String,
    pub event_type: String,
    pub payload: JsonValue,
    pub created_at_ms: i64,
}

/// The answer to a reported event.
#[derive(Debug)]
pub struct EventAck {
    pub accepted: bool,
    pub duplicate: bool,
    pub event_id: String,
}

/// An event as the events query returns it.
#[derive(Debug)]
pub struct EventItem {
    pub event_id: String,
    pub session_id: String,
    pub event_type: String,
    pub payload: JsonValue,
    pub created_at_ms: i64,
}

/// One page of events.
#[derive(Debug)]
pub struct EventQueryResponse {
    pub items: Vec<EventItem>,
    pub total: u64,
    pub page: u32,
    pub page_size: u32,
}

/// A session as the sessions list shows it.
#[derive(Debug)]
pub struct SessionItem {
    pub session_id: String,
    pub project_name: String,
    pub agent_type: String,
    pub last_active_at_ms: i64,
    pub latest_risk_level: String,
    pub evaluation_count: u64,
}

/// An event as the events query returns it: its payload without the raw
/// hook input, which may hold secrets.
pub fn event_item(
    event_id: String,
    session_id: String,
    event_type: String,
    payload: JsonValue,
    created_at_ms: i64,
) -> (r: EventItem)
    ensures
        r.event_id@ == event_id@,
        r.session_id@ == session_id@,
        r.event_type@ == event_type@,
        r.payload@ == crate::json::json_remove(payload@, "raw_stdin"@),
        r.created_at_ms == created_at_ms,
{
    EventItem {
        event_id,
        session_id,
        event_type,
        payload: crate::json::remove_member(payload, "raw_stdin"),
        created_at_ms,
    }
}

/// The port the collector listens on: the configured one when it is a
/// number from 1 to 65535, 8787 otherwise.
pub fn server_port(configured: Option<&str>) -> (r: u16)
    ensures
        r == match configured {
            Some(v) => match crate::text::parse_bounded(v@, 65535) {
                Some(p) => if p > 0 { p as u16 } else { 8787u16 },
                None => 8787u16,
            },
            None => 8787u16,
        },
{
    match configured {
        Some(v) => {
            let c = crate::text::chars_of(v);
            match crate::text::parse_bounded_chars(&c, 65535) {
                Some(p) => if p > 0 { p as u16 } else { 8787 },
                None => 8787,
            }
        }
        None => 8787,
    }
}

/// The body of a refused request, and of a plain acknowledgement.
#[derive(Debug)]
pub struct ApiErrorBody {
    pub accepted: bool,
    pub error: String,
    pub error_code: String,
    pub retryable: bool,
}

/// Why a request was refused.
#[derive(Debug)]
pub enum ApiError {
    BadRequest(String),
    Internal(String),
    QueueFull(String),
}

/// The message of a refusal.
pub open spec fn api_error_message(e: ApiError) -> Seq<char> {
    match e {
        ApiError::BadRequest(m) => m@,
        ApiError::Internal(m) => m@,
        ApiError::QueueFull(m) => m@,
    }
}

/// The HTTP status, error code and retry hint of a refusal: 400
/// `bad_request`, 500 `internal_error`, or 429 `evaluation_queue_full`,
/// the only one worth retrying.
pub open spec fn api_error_kind(e: ApiError) -> (u16, Seq<char>, bool) {
    match e {
        ApiError::BadRequest(_) => (400, "bad_request"@, false),
        ApiError::Internal(_) => (500, "internal_error"@, false),
        ApiError::QueueFull(_) => (429, "evaluation_queue_full"@, true),
    }
}

/// The HTTP status and body that answer a refused request.
pub fn error_response(e: ApiError) -> (r: (u16, ApiErrorBody))
    ensures
        !r.1.accepted,
        r.1.error@ == api_error_message(e),
        (r.0, r.1.error_code@, r.1.retryable) == api_error_kind(e),
{
    let (status, message, code, retryable): (u16, String, &str, bool) = match e {
        ApiError::BadRequest(m) => (400, m, "bad_request", false),
        ApiError::Internal(m) => (500, m, "internal_error", false),
        ApiError::QueueFull(m) => (429, m, "evaluation_queue_full", true),
    };
    (status, ApiErrorBody { accepted: false, error: message, error_code: code.to_string(), retryable })
}

/// The body of an accepted request that returns nothing else.
pub fn accepted_body() -> (r: ApiErrorBody)
    ensures
        r.accepted,
        r.error@.len() == 0,
        r.error_code@.len() == 0,
        !r.retryable,
{
    ApiErrorBody { accepted: true, error: String::new(), error_code: String::new(), retryable: false }
}

// ---------------------------------------------------------------------
// Reported events
// ---------------------------------------------------------------------

/// Why an event is refused, if it is: the first of its required fields
/// (id, session, project, type) that is blank.
pub open spec fn event_problem(event: IncomingEvent) -> Option<Seq<char>> {
    if is_blank(event.event_id@) {
        Some("event_id cannot be empty"@)
    } else if is_blank(event.session_id@) {
        Some("session_id cannot be empty"@)
    } else if is_blank(event.project_name@) {
        Some("project_name cannot be empty"@)
    } else if is_blank(event.event_type@) {
        Some("event_type cannot be empty"@)
    } else {
        None
    }
}

/// Checks the required fields of an event.
pub fn validate_event(event: &IncomingEvent) -> (r: Result<(), ApiError>)
    ensures
        match event_problem(*event) {
            None => r is Ok,
            Some(m) => r matches Err(ApiError::BadRequest(msg)) && msg@ == m,
        },
{
    if is_blank_str(event.event_id.as_str()) {
        return Err(ApiError::BadRequest("event_id cannot be empty".to_string()));
    }
    if is_blank_str(event.session_id.as_str()) {
        return Err(ApiError::BadRequest("session_id cannot be empty".to_string()));
    }
    if is_blank_str(event.project_name.as_str()) {
        return Err(ApiError::BadRequest("project_name cannot be empty".to_string()));
    }
    if is_blank_str(event.event_type.as_str()) {
        return Err(ApiError::BadRequest("event_type cannot be empty".to_string()));
    }
    Ok(())
}

/// What happens to a reported event.
#[derive(Debug)]
pub enum Admission {
    /// Collection is switched off: the event is acknowledged as not accepted.
    Declined(EventAck),
    /// The event, its payload redacted, goes to the event queue.
    Enqueue(IncomingEvent),
}

/// Admits a reported event: declined when collection is off, refused when
/// a required field is blank, otherwise queued with its secrets redacted.
pub fn admit_event(event_enabled: bool, event: IncomingEvent) -> (r: Result<Admission, ApiError>)
    ensures
        !event_enabled ==> (r matches Ok(Admission::Declined(ack))
            && !ack.accepted && !ack.duplicate && ack.event_id@ == event.event_id@),
        event_enabled && event_problem(event) is Some ==> (r matches Err(ApiError::BadRequest(m))
            && m@ == event_problem(event)->0),
        event_enabled && event_problem(event) is None ==> (r matches Ok(Admission::Enqueue(e)) && {
            &&& e.event_id@ == event.event_id@
            &&& e.session_id@ == event.session_id@
            &&& e.project_name@ == event.project_name@
            &&& e.event_type@ == event.event_type@
            &&& e.payload@ == sanitize(event.payload@)
            &&& e.created_at_ms == event.created_at_ms
        }),
{
    if !event_enabled {
        return Ok(Admission::Declined(EventAck { accepted: false, duplicate: false, event_id: event.event_id }));
    }
    match validate_event(&event) {
        Err(e) => Err(e),
        Ok(()) => {
            let payload = sanitized(&event.payload);
            Ok(Admission::Enqueue(IncomingEvent {
                event_id: event.event_id,
                session_id: event.session_id,
                project_name: event.project_name,
                event_type: event.event_type,
                payload,
                created_at_ms: event.created_at_ms,
            }))
        }
    }
}

/// How a queue refused an item.
#[derive(Debug)]
pub enum SendFailure {
    /// The queue is at capacity.
    Full,
    /// The queue's receiver is gone.
    Closed,
}

/// The acknowledgement of a queued event.
pub fn event_accepted(event_id: String) -> (r: EventAck)
    ensures
        r.accepted,
        !r.duplicate,
        r.event_id@ == event_id@,
{
    EventAck { accepted: true, duplicate: false, event_id }
}

/// The refusal when the event queue does not take an event.
pub fn event_queue_error(failure: SendFailure) -> (r: ApiError)
    ensures
        failure is Full ==> (r matches ApiError::QueueFull(m) && m@ == "event queue is full, please retry later"@),
        failure is Closed ==> (r matches ApiError::Internal(m) && m@ == "event queue is closed"@),
{
    match failure {
        SendFailure::Full => ApiError::QueueFull("event queue is full, please retry later".to_string()),
        SendFailure::Closed => ApiError::Internal("event queue is closed".to_string()),
    }
}

/// The agents that report events.
#[derive(Debug)]
pub enum AgentKind {
    /// Cursor's agent.
    Cursor,
    /// The command-line coding agent this launcher installs.
    ClaudeCode,
}

/// The agent that reported a payload: Cursor when the hook input names a
/// Cursor version, the command-line agent otherwise.
pub open spec fn agent_kind(payload: JsonModel) -> AgentKind {
    match json_as_str(json_get_opt(json_get(payload, "stdin_json"@), "cursor_version"@)) {
        Some(v) => if v.len() > 0 { AgentKind::Cursor } else { AgentKind::ClaudeCode },
        None => AgentKind::ClaudeCode,
    }
}

/// Detects the agent that reported a payload.
pub fn detect_agent_type(payload: &JsonValue) -> (r: AgentKind)
    ensures
        r == agent_kind(payload@),
{
    match as_str(get_opt(get(payload, "stdin_json"), "cursor_version")) {
        Some(v) => {
            if v.as_str().is_empty() {
                AgentKind::ClaudeCode
            } else {
                AgentKind::Cursor
            }
        }
        None => AgentKind::ClaudeCode,
    }
}

// ---------------------------------------------------------------------
// Sampling events for evaluation
// ---------------------------------------------------------------------

/// Whether the event that brings the counter to `count` is evaluated:
/// one event in every `sampling_rate` (a rate of 0 counts as 1).
pub open spec fn sampled(count: int, sampling_rate: u32) -> bool {
    let rate = if sampling_rate == 0 { 1int } else { sampling_rate as int };
    count % rate == 0
}

/// The counter after an event, as the atomic counter's wrapping increment leaves it.
pub open spec fn next_count(counter: u64) -> u64 {
    if counter == u64::MAX { 0 } else { (counter + 1) as u64 }
}

/// Decides whether an inserted event is evaluated, and moves the event
/// counter: nothing happens when evaluation is off; otherwise the counter
/// goes up by one and every `sampling_rate`-th event is evaluated.
pub fn sample_for_evaluation(enabled: bool, sampling_rate: u32, counter: u64) -> (r: (bool, u64))
    ensures
        !enabled ==> r == (false, counter),
        enabled ==> r.1 == next_count(counter) && r.0 == sampled(next_count(counter) as int, sampling_rate),
{
    if !enabled {
        return (false, counter);
    }
    let rate: u64 = if sampling_rate == 0 { 1 } else { sampling_rate as u64 };
    let count: u64 = counter.wrapping_add(1);
    (count % rate == 0, count)
}

/// Decides whether a stored event is offered for evaluation: only a newly
/// inserted event is (a duplicate neither counts nor is evaluated), and then
/// as [`sample_for_evaluation`] decides.
pub fn offer_for_evaluation(inserted: bool, enabled: bool, sampling_rate: u32, counter: u64) -> (r: (bool, u64))
    ensures
        !(inserted && enabled) ==> r == (false, counter),
        inserted && enabled ==> r.1 == next_count(counter) && r.0 == sampled(next_count(counter) as int, sampling_rate),
{
    if inserted {
        sample_for_evaluation(enabled, sampling_rate, counter)
    } else {
        (false, counter)
    }
}

/// The number of events among the counts `1..=n` that are evaluated.
pub open spec fn sampled_count(n: nat, sampling_rate: u32) -> nat
    decreases n,
{
    if n == 0 {
        0
    } else {
        sampled_count((n - 1) as nat, sampling_rate) + if sampled(n as int, sampling_rate) { 1nat } else { 0nat }
    }
}

/// Law: of the first `n` events counted with evaluation on, exactly
/// `n / rate` are evaluated, one every `rate` events (a rate of 0 counts as 1).
pub proof fn lemma_sampling_rate(n: nat, sampling_rate: u32)
    ensures
        sampled_count(n, sampling_rate) == n / (if sampling_rate == 0 { 1nat } else { sampling_rate as nat }),
    decreases n,
{
    let rate: nat = if sampling_rate == 0 { 1nat } else { sampling_rate as nat };
    if n > 0 {
        lemma_sampling_rate((n - 1) as nat, sampling_rate);
        let m = (n - 1) as nat;
        assert(rate > 0);
        assert((m + 1) / rate == m / rate + if (m + 1) % rate == 0 { 1nat } else { 0nat }) by (nonlinear_arith)
            requires rate > 0;
        assert(sampled(n as int, sampling_rate) == ((m + 1) % rate == 0));
    }
}

/// Unique evaluation ids: text of a random (version 4) UUID; nothing more is stated of it.
#[verifier::external_body]
fn random_uuid_text() -> String {
    uuid::Uuid::new_v4().to_string()
}

/// A job that asks for the evaluation of an event.
#[derive(Debug)]
pub struct EvaluationJob {
    pub evaluation_id: String,
    pub event_id: Option<String>,
    pub session_id: String,
    pub event_type: String,
    pub payload: JsonValue,
    pub retry_count: u32,
}

/// The first evaluation job of an event: a fresh `eval-` id, the event's
/// ids, type and payload, no retries yet.
pub fn new_evaluation_job(event: &IncomingEvent) -> (job: EvaluationJob)
    ensures
        job.evaluation_id@.len() >= 5,
        job.evaluation_id@.take(5) == "eval-"@,
        job.event_id matches Some(id) && id@ == event.event_id@,
        job.session_id@ == event.session_id@,
        job.event_type@ == event.event_type@,
        job.payload@ == event.payload@,
        job.retry_count == 0,
{
    let uuid = random_uuid_text();
    let mut v: Vec<char> = Vec::new();
    push_str(&mut v, "eval-");
    push_str(&mut v, uuid.as_str());
    proof {
        reveal_strlit("eval-");
        assert(v@.take(5) =~= "eval-"@);
    }
    EvaluationJob {
        evaluation_id: string_from_chars(&v),
        event_id: Some(event.event_id.clone()),
        session_id: event.session_id.clone(),
        event_type: event.event_type.clone(),
        payload: json_clone(&event.payload),
        retry_count: 0,
    }
}

/// The refusal when the evaluation queue does not take an event's job.
pub fn evaluation_queue_error(failure: SendFailure, event_id: &str) -> (r: ApiError)
    ensures
        failure is Full ==> (r matches ApiError::QueueFull(m)
            && m@ == "evaluation queue is full for event "@ + event_id@ + ", please retry later"@),
        failure is Closed ==> (r matches ApiError::Internal(m)
            && m@ == "evaluation queue is closed for event "@ + event_id@),
{
    let mut v: Vec<char> = Vec::new();
    match failure {
        SendFailure::Full => {
            push_str(&mut v, "evaluation queue is full for event ");
            push_str(&mut v, event_id);
            push_str(&mut v, ", please retry later");
            ApiError::QueueFull(string_from_chars(&v))
        }
        SendFailure::Closed => {
            push_str(&mut v, "evaluation queue is closed for event ");
            push_str(&mut v, event_id);
            ApiError::Internal(string_from_chars(&v))
        }
    }
}

// ---------------------------------------------------------------------
// Evaluation jobs and their records
// ---------------------------------------------------------------------

/// What an evaluation record keeps of its input: `{"event_type": ..., "payload": ...}`.
pub open spec fn input_summary_model(event_type: Seq<char>, payload: JsonModel) -> JsonModel {
    JsonModel::Object(seq![("event_type"@, JsonModel::Str(event_type)), ("payload"@, payload)])
}

/// The input summary of a job.
pub fn input_summary(job: &EvaluationJob) -> (r: JsonValue)
    ensures
        r@ == input_summary_model(job.event_type@, job.payload@),
{
    let mut entries: Vec<(String, JsonValue)> = Vec::new();
    entries.push(entry("event_type", string_value(job.event_type.as_str())));
    entries.push(entry("payload", json_clone(&job.payload)));
    let r = object_of(entries);
    assert(r@->Object_0 =~= input_summary_model(job.event_type@, job.payload@)->Object_0);
    r
}

/// The event id a job's evaluation reports: the event's own, or
/// `retry-<evaluation id>` when the job has none.
pub open spec fn job_event_id(job: EvaluationJob) -> Seq<char> {
    match job.event_id {
        Some(id) => id@,
        None => "retry-"@ + job.evaluation_id@,
    }
}

/// The input handed to the evaluator for a job.
pub fn evaluation_input(job: &EvaluationJob) -> (r: EvaluationInput)
    ensures
        r.event_id@ == job_event_id(*job),
        r.event_type@ == job.event_type@,
        r.payload@ == job.payload@,
{
    let event_id = match &job.event_id {
        Some(id) => id.clone(),
        None => {
            let mut v: Vec<char> = Vec::new();
            push_str(&mut v, "retry-");
            push_str(&mut v, job.evaluation_id.as_str());
            string_from_chars(&v)
        }
    };
    EvaluationInput { event_id, event_type: job.event_type.clone(), payload: json_clone(&job.payload) }
}

/// The row stored for an evaluation.
#[derive(Debug)]
pub struct EvaluationRecord {
    pub evaluation_id: String,
    pub session_id: String,
    pub event_id: Option<String>,
    pub provider: String,
    pub model: String,
    pub base_url: String,
    pub risk_level: String,
    pub risk_category: String,
    pub efficiency_level: String,
    pub suggestion: String,
    pub status: String,
    pub error_message: Option<String>,
    pub error_stack: Option<String>,
    pub input_summary: String,
    pub retry_count: u32,
    pub created_at_ms: i64,
    pub updated_at_ms: i64,
}

/// The views of an optional string.
pub open spec fn opt_view(s: Option<String>) -> Option<Seq<char>> {
    match s {
        Some(x) => Some(x@),
        None => None,
    }
}

/// The record of an evaluation: the job's ids and retry count, the
/// provider settings used, and either the provider's conclusions with
/// status `success`, or `unknown` conclusions with status `failed` and the
/// error as message and stack.
pub open spec fn is_record_of(
    rec: EvaluationRecord,
    job: EvaluationJob,
    config: EvalConfig,
    result: Result<StructuredEvaluation, String>,
    summary_text: Seq<char>,
    now_ms: i64,
) -> bool {
    &&& rec.evaluation_id@ == job.evaluation_id@
    &&& rec.session_id@ == job.session_id@
    &&& opt_view(rec.event_id) == opt_view(job.event_id)
    &&& rec.provider@ == config.provider@
    &&& rec.model@ == config.model@
    &&& rec.base_url@ == config.base_url@
    &&& rec.input_summary@ == summary_text
    &&& rec.retry_count == job.retry_count
    &&& rec.created_at_ms == now_ms
    &&& rec.updated_at_ms == now_ms
    &&& match result {
        Ok(ev) => {
            &&& rec.risk_level@ == ev.risk_level@
            &&& rec.risk_category@ == ev.risk_category@
            &&& rec.efficiency_level@ == ev.efficiency_level@
            &&& rec.suggestion@ == ev.suggestion@
            &&& rec.status@ == "success"@
            &&& rec.error_message is None
            &&& rec.error_stack is None
        },
        Err(e) => {
            &&& rec.risk_level@ == "unknown"@
            &&& rec.risk_category@ == "unknown"@
            &&& rec.efficiency_level@ == "unknown"@
            &&& rec.suggestion@.len() == 0
            &&& rec.status@ == "failed"@
            &&& opt_view(rec.error_message) == Some(e@)
            &&& opt_view(rec.error_stack) == Some(e@)
        },
    }
}

/// Builds the record of an evaluation; `summary_text` is the JSON text of
/// the job's [`input_summary`].
pub fn evaluation_record(
    job: &EvaluationJob,
    config: &EvalConfig,
    result: Result<StructuredEvaluation, String>,
    summary_text: String,
    now_ms: i64,
) -> (rec: EvaluationRecord)
    ensures
        is_record_of(rec, *job, *config, result, summary_text@, now_ms),
{
    let (risk_level, risk_category, efficiency_level, suggestion, status, error_message, error_stack) = match result {
        Ok(ev) => (ev.risk_level, ev.risk_category, ev.efficiency_level, ev.suggestion, "success".to_string(), None, None),
        Err(e) => {
            let stack = e.clone();
            (
                "unknown".to_string(),
                "unknown".to_string(),
                "unknown".to_string(),
                String::new(),
                "failed".to_string(),
                Some(e),
                Some(stack),
            )
        }
    };
    EvaluationRecord {
        evaluation_id: job.evaluation_id.clone(),
        session_id: job.session_id.clone(),
        event_id: match &job.event_id {
            Some(id) => Some(id.clone()),
            None => None,
        },
        provider: config.provider.clone(),
        model: config.model.clone(),
        base_url: config.base_url.clone(),
        risk_level,
        risk_category,
        efficiency_level,
        suggestion,
        status,
        error_message,
        error_stack,
        input_summary: summary_text,
        retry_count: job.retry_count,
        created_at_ms: now_ms,
        updated_at_ms: now_ms,
    }
}

// ---------------------------------------------------------------------
// Retrying an evaluation
// ---------------------------------------------------------------------

/// The stored facts about an evaluation that is retried.
#[derive(Debug)]
pub struct StoredEvaluation {
    pub session_id: String,
    pub event_id: Option<String>,
    pub input_summary: String,
    pub retry_count: i64,
}

/// The job that retries a stored evaluation: the stored ids, the event
/// type and payload from the input summary (`unknown-event` and `null`
/// when missing), and one more retry.
pub fn retry_job(
    evaluation_id: String,
    stored: StoredEvaluation,
    summary: Result<JsonValue, String>,
) -> (r: Result<EvaluationJob, ApiError>)
    requires
        (stored.retry_count as u32) < u32::MAX,
    ensures
        match summary {
            Err(e) => r matches Err(ApiError::Internal(m))
                && m@ == "failed to parse evaluation input summary: "@ + e@,
            Ok(s) => r matches Ok(job) && {
                &&& job.evaluation_id@ == evaluation_id@
                &&& opt_view(job.event_id) == opt_view(stored.event_id)
                &&& job.session_id@ == stored.session_id@
                &&& job.event_type@ == match json_as_str(json_get(s@, "event_type"@)) {
                    Some(t) => t,
                    None => "unknown-event"@,
                }
                &&& job.payload@ == match json_get(s@, "payload"@) {
                    Some(p) => p,
                    None => JsonModel::Null,
                }
                &&& job.retry_count == (stored.retry_count as u32) + 1
            },
        },
{
    match summary {
        Err(e) => {
            let mut v: Vec<char> = Vec::new();
            push_str(&mut v, "failed to parse evaluation input summary: ");
            push_str(&mut v, e.as_str());
            Err(ApiError::Internal(string_from_chars(&v)))
        }
        Ok(s) => {
            let event_type = match as_str(get(&s, "event_type")) {
                Some(t) => t.clone(),
                None => "unknown-event".to_string(),
            };
            let payload = match get(&s, "payload") {
                Some(p) => json_clone(p),
                None => JsonValue::Null,
            };
            let count = stored.retry_count as u32;
            Ok(EvaluationJob {
                evaluation_id,
                event_id: stored.event_id,
                session_id: stored.session_id,
                event_type,
                payload,
                retry_count: count + 1,
            })
        }
    }
}

/// The refusal when a retry names an evaluation that cannot be loaded.
pub fn retry_lookup_error(evaluation_id: &str, error_debug: &str) -> (r: ApiError)
    ensures
        r matches ApiError::BadRequest(m)
            && m@ == "cannot retry evaluation id="@ + evaluation_id@ + " error="@ + error_debug@,
{
    let mut v: Vec<char> = Vec::new();
    push_str(&mut v, "cannot retry evaluation id=");
    push_str(&mut v, evaluation_id);
    push_str(&mut v, " error=");
    push_str(&mut v, error_debug);
    ApiError::BadRequest(string_from_chars(&v))
}

/// The refusal when the evaluation queue does not take a retry.
pub fn retry_queue_error(failure: SendFailure) -> (r: ApiError)
    ensures
        failure is Full ==> (r matches ApiError::QueueFull(m) && m@ == "evaluation queue is full, please retry later"@),
        failure is Closed ==> (r matches ApiError::Internal(m) && m@ == "evaluation queue is closed, cannot enqueue retry"@),
{
    match failure {
        SendFailure::Full => ApiError::QueueFull("evaluation queue is full, please retry later".to_string()),
        SendFailure::Closed => ApiError::Internal("evaluation queue is closed, cannot enqueue retry".to_string()),
    }
}

/// A request naming a session must name one: `<what> cannot be empty` otherwise.
pub fn require_session_id(session_id: &str, message: &str) -> (r: Result<(), ApiError>)
    ensures
        is_blank(session_id@) ==> (r matches Err(ApiError::BadRequest(m)) && m@ == message@),
        !is_blank(session_id@) ==> r is Ok,
{
    if is_blank_str(session_id) {
        Err(ApiError::BadRequest(message.to_string()))
    } else {
        Ok(())
    }
}

} // verus!
