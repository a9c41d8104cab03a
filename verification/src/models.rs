//! The plain records the collector's schema describes: events, sessions,
//! evaluations and settings.
use vstd::prelude::*;
use crate::json::JsonValue;

verus! {

/// A stored event.
#[derive(Debug)]
pub struct EventModel {
    pub event_id: String,
    pub session_id: String,
    pub event_type: String,
    pub payload: JsonValue,
    pub created_at_ms: i64,
}

/// A stored session.
#[derive(Debug)]
pub struct SessionModel {
    pub session_id: String,
    pub project_name: String,
    pub agent_type: String,
    pub first_seen_at_ms: i64,
    pub last_active_at_ms: i64,
}

/// A stored evaluation.
#[derive(Debug)]
pub struct EvaluationModel {
    pub evaluation_id: String,
    pub session_id: String,
    pub event_id: Option<String>,
    pub provider: String,
    pub model: String,
    pub risk_level: String,
    pub efficiency_level: String,
    pub suggestion: String,
    pub created_at_ms: i64,
}

/// The stored evaluation settings.
#[derive(Debug)]
pub struct SettingsModel {
    pub provider: String,
    pub model: String,
    pub enabled: bool,
    pub sampling_rate: u32,
    pub updated_at_ms: i64,
}

/// One of each record, for describing them together.
#[derive(Debug)]
pub struct MinimalSchemaBundle {
    pub event: EventModel,
    pub session: SessionModel,
    pub evaluation: EvaluationModel,
    pub settings: SettingsModel,
}

} // verus!
