//! The evaluation settings: how they are validated when saved, the rows
//! they are stored as, and how they are read back from those rows.
use vstd::prelude::*;
use crate::collection::ApiError;
use crate::evaluation::{EvalConfig, EvalConfigModel, default_eval_config};
use crate::text::{
    chars_of, decimal, digits_part, digits_value, is_blank, is_blank_str, is_digit, parse_bounded,
    parse_bounded_chars, parse_unsigned, u64_to_string,
};

verus! {

broadcast use vstd::string::group_string_axioms;

/// The sampling rate in effect: at least one.
pub open spec fn effective_rate(rate: u32) -> u32 {
    if rate == 0 { 1 } else { rate }
}

/// A timeout kept within 500..=120000 ms.
pub open spec fn clamp_timeout(ms: u64) -> u64 {
    if ms < 500 { 500 } else if ms > 120000 { 120000 } else { ms }
}

/// An API key made of white space only counts as none.
pub open spec fn effective_key(key: Option<Seq<char>>) -> Option<Seq<char>> {
    match key {
        Some(k) => if is_blank(k) { None } else { Some(k) },
        None => None,
    }
}

// ---------------------------------------------------------------------
// Saving
// ---------------------------------------------------------------------

/// Why settings are refused, if they are: a blank provider, model or base URL.
pub open spec fn settings_problem(c: EvalConfigModel) -> Option<Seq<char>> {
    if is_blank(c.provider) {
        Some("provider cannot be empty"@)
    } else if is_blank(c.model) {
        Some("model cannot be empty"@)
    } else if is_blank(c.base_url) {
        Some("base_url cannot be empty"@)
    } else {
        None
    }
}

/// Settings as saved: a sampling rate of 0 becomes 1 and the timeout is
/// kept within 500..=120000 ms; everything else is kept.
pub open spec fn saved_settings(c: EvalConfigModel) -> EvalConfigModel {
    EvalConfigModel { sampling_rate: effective_rate(c.sampling_rate), timeout_ms: clamp_timeout(c.timeout_ms), ..c }
}

/// Validates and normalizes settings before they are stored.
pub fn save_settings(config: EvalConfig) -> (r: Result<EvalConfig, ApiError>)
    ensures
        match settings_problem(config@) {
            Some(m) => r matches Err(ApiError::BadRequest(msg)) && msg@ == m,
            None => r matches Ok(c) && c@ == saved_settings(config@),
        },
{
    let mut config = config;
    if config.sampling_rate == 0 {
        config.sampling_rate = 1;
    }
    config.timeout_ms = if config.timeout_ms < 500 {
        500
    } else if config.timeout_ms > 120000 {
        120000
    } else {
        config.timeout_ms
    };
    if is_blank_str(config.provider.as_str()) {
        return Err(ApiError::BadRequest("provider cannot be empty".to_string()));
    }
    if is_blank_str(config.model.as_str()) {
        return Err(ApiError::BadRequest("model cannot be empty".to_string()));
    }
    if is_blank_str(config.base_url.as_str()) {
        return Err(ApiError::BadRequest("base_url cannot be empty".to_string()));
    }
    Ok(config)
}

// ---------------------------------------------------------------------
// Storing
// ---------------------------------------------------------------------

/// The rows settings are stored as, one per key.
pub open spec fn settings_rows(c: EvalConfigModel) -> Seq<(Seq<char>, Seq<char>)> {
    seq![
        ("eval_enabled"@, if c.enabled { "true"@ } else { "false"@ }),
        ("eval_sampling_rate"@, decimal(effective_rate(c.sampling_rate) as nat)),
        ("eval_provider"@, c.provider),
        ("eval_model"@, c.model),
        ("eval_base_url"@, c.base_url),
        ("eval_api_key"@, match c.api_key { Some(k) => k, None => Seq::empty() }),
        ("eval_timeout_ms"@, decimal(clamp_timeout(c.timeout_ms) as nat)),
    ]
}

/// The views of stored rows.
pub open spec fn rows_view(rows: Seq<(String, String)>) -> Seq<(Seq<char>, Seq<char>)> {
    Seq::new(rows.len(), |i: int| (rows[i].0@, rows[i].1@))
}

/// The rows to store for the given settings.
pub fn persist_eval_config(config: &EvalConfig) -> (rows: Vec<(String, String)>)
    ensures
        rows_view(rows@) == settings_rows(config@),
{
    let mut rows: Vec<(String, String)> = Vec::new();
    rows.push(("eval_enabled".to_string(), if config.enabled { "true".to_string() } else { "false".to_string() }));
    let rate: u64 = if config.sampling_rate == 0 { 1 } else { config.sampling_rate as u64 };
    rows.push(("eval_sampling_rate".to_string(), u64_to_string(rate)));
    rows.push(("eval_provider".to_string(), config.provider.clone()));
    rows.push(("eval_model".to_string(), config.model.clone()));
    rows.push(("eval_base_url".to_string(), config.base_url.clone()));
    let key = match &config.api_key {
        Some(k) => k.clone(),
        None => String::new(),
    };
    rows.push(("eval_api_key".to_string(), key));
    let timeout: u64 = if config.timeout_ms < 500 {
        500
    } else if config.timeout_ms > 120000 {
        120000
    } else {
        config.timeout_ms
    };
    rows.push(("eval_timeout_ms".to_string(), u64_to_string(timeout)));
    assert(rows_view(rows@) =~= settings_rows(config@));
    rows
}

// ---------------------------------------------------------------------
// Loading
// ---------------------------------------------------------------------

/// What one stored row does to the settings: the known keys set their
/// field (an unreadable sampling rate reads as 1, an unreadable timeout as
/// 8000 ms, then both are normalized; a blank key reads as none), other
/// keys are ignored.
pub open spec fn apply_setting(c: EvalConfigModel, key: Seq<char>, value: Seq<char>) -> EvalConfigModel {
    if key == "eval_enabled"@ {
        EvalConfigModel { enabled: value == "true"@, ..c }
    } else if key == "eval_sampling_rate"@ {
        let rate = match parse_bounded(value, u32::MAX as int) {
            Some(v) => v,
            None => 1,
        };
        EvalConfigModel { sampling_rate: if rate < 1 { 1 } else { rate as u32 }, ..c }
    } else if key == "eval_provider"@ {
        EvalConfigModel { provider: value, ..c }
    } else if key == "eval_model"@ {
        EvalConfigModel { model: value, ..c }
    } else if key == "eval_base_url"@ {
        EvalConfigModel { base_url: value, ..c }
    } else if key == "eval_api_key"@ {
        EvalConfigModel { api_key: if is_blank(value) { None } else { Some(value) }, ..c }
    } else if key == "eval_timeout_ms"@ {
        let t = match parse_bounded(value, u64::MAX as int) {
            Some(v) => v,
            None => 8000,
        };
        EvalConfigModel { timeout_ms: clamp_timeout(t as u64), ..c }
    } else {
        c
    }
}

/// The settings read from stored rows, in order, starting from the defaults.
pub open spec fn loaded_settings(rows: Seq<(Seq<char>, Seq<char>)>) -> EvalConfigModel
    decreases rows.len(),
{
    if rows.len() == 0 {
        default_eval_config()
    } else {
        apply_setting(loaded_settings(rows.drop_last()), rows.last().0, rows.last().1)
    }
}

fn slices_eq(a: &[char], b: &str) -> (r: bool)
    ensures
        r == (a@ == b@),
{
    let bv = chars_of(b);
    crate::json::slices_equal(a, &bv)
}

/// Reads the settings from the stored rows.
pub fn load_eval_config(rows: &[(String, String)]) -> (c: EvalConfig)
    ensures
        c@ == loaded_settings(rows_view(rows@)),
{
    let mut config = EvalConfig::default();
    let mut i: usize = 0;
    while i < rows.len()
        invariant
            i <= rows@.len(),
            config@ == loaded_settings(rows_view(rows@).take(i as int)),
        decreases rows@.len() - i,
    {
        assert(rows_view(rows@).take(i + 1).drop_last() =~= rows_view(rows@).take(i as int));
        assert(rows_view(rows@).take(i + 1).last() == (rows@[i as int].0@, rows@[i as int].1@));
        let key = chars_of(rows[i].0.as_str());
        let value = rows[i].1.clone();
        if slices_eq(&key, "eval_enabled") {
            let v = chars_of(value.as_str());
            config.enabled = slices_eq(&v, "true");
        } else if slices_eq(&key, "eval_sampling_rate") {
            let v = chars_of(value.as_str());
            let rate: u64 = match parse_bounded_chars(&v, 0xFFFF_FFFF) {
                Some(x) => x,
                None => 1,
            };
            config.sampling_rate = if rate < 1 { 1 } else { rate as u32 };
        } else if slices_eq(&key, "eval_provider") {
            config.provider = value;
        } else if slices_eq(&key, "eval_model") {
            config.model = value;
        } else if slices_eq(&key, "eval_base_url") {
            config.base_url = value;
        } else if slices_eq(&key, "eval_api_key") {
            if is_blank_str(value.as_str()) {
                config.api_key = None;
            } else {
                config.api_key = Some(value);
            }
        } else if slices_eq(&key, "eval_timeout_ms") {
            let v = chars_of(value.as_str());
            let t: u64 = match parse_bounded_chars(&v, 0xFFFF_FFFF_FFFF_FFFF) {
                Some(x) => x,
                None => 8000,
            };
            config.timeout_ms = if t < 500 { 500 } else if t > 120000 { 120000 } else { t };
        }
        i = i + 1;
    }
    assert(rows_view(rows@).take(rows@.len() as int) =~= rows_view(rows@));
    config
}

// ---------------------------------------------------------------------
// Laws
// ---------------------------------------------------------------------

proof fn lemma_digit_char(d: int)
    requires
        0 <= d <= 9,
    ensures
        is_digit(crate::text::digit_char(d)),
        crate::text::digit_value(crate::text::digit_char(d)) == d,
{
}

proof fn lemma_decimal_digits(n: nat)
    ensures
        decimal(n).len() > 0,
        forall|i: int| 0 <= i < decimal(n).len() ==> is_digit(#[trigger] decimal(n)[i]),
        digits_value(decimal(n)) == n,
    decreases n,
{
    lemma_digit_char((n % 10) as int);
    if n >= 10 {
        lemma_decimal_digits(n / 10);
        let d = decimal(n / 10);
        let s = d.push(crate::text::digit_char((n % 10) as int));
        assert forall|i: int| 0 <= i < s.len() implies is_digit(#[trigger] s[i]) by {
            if i < d.len() {
                assert(s[i] == d[i]);
            }
        }
        assert(s.drop_last() =~= d);
        assert(digits_value(s) == digits_value(d) * 10 + crate::text::digit_value(s.last()));
        assert((n / 10) * 10 + n % 10 == n);
    } else {
        let s = decimal(n);
        assert(s.drop_last() =~= Seq::<char>::empty());
        assert(digits_value(s) == digits_value(s.drop_last()) * 10 + crate::text::digit_value(s.last()));
    }
}

/// Law: a number printed in decimal reads back as itself.
pub proof fn lemma_decimal_parses_back(n: nat, limit: int)
    requires
        n <= limit,
    ensures
        parse_bounded(decimal(n), limit) == Some(n as int),
{
    lemma_decimal_digits(n);
    assert(digits_part(decimal(n)) == decimal(n)) by {
        assert(is_digit(decimal(n)[0]));
    }
    crate::text::lemma_parse_accepts_digits(decimal(n));
}

/// Settings as they read back after being stored: a sampling rate of at
/// least 1, a timeout within 500..=120000 ms, and no blank API key.
pub open spec fn normalized_settings(c: EvalConfigModel) -> EvalConfigModel {
    EvalConfigModel {
        sampling_rate: effective_rate(c.sampling_rate),
        timeout_ms: clamp_timeout(c.timeout_ms),
        api_key: effective_key(c.api_key),
        ..c
    }
}

proof fn lemma_loaded_step(rows: Seq<(Seq<char>, Seq<char>)>, k: int)
    requires
        0 <= k < rows.len(),
    ensures
        loaded_settings(rows.take(k + 1)) == apply_setting(loaded_settings(rows.take(k)), rows[k].0, rows[k].1),
{
    assert(rows.take(k + 1).drop_last() =~= rows.take(k));
    assert(rows.take(k + 1).last() == rows[k]);
}

/// Law: storing settings and reading them back gives the settings
/// normalized (rate at least 1, timeout clamped, blank API key dropped).
pub proof fn lemma_settings_round_trip(c: EvalConfigModel)
    ensures
        loaded_settings(settings_rows(c)) == normalized_settings(c),
{
    reveal_strlit("eval_enabled");
    reveal_strlit("eval_sampling_rate");
    reveal_strlit("eval_provider");
    reveal_strlit("eval_model");
    reveal_strlit("eval_base_url");
    reveal_strlit("eval_api_key");
    reveal_strlit("eval_timeout_ms");
    reveal_strlit("true");
    reveal_strlit("false");
    assert("eval_enabled"@.len() == 12);
    assert("eval_sampling_rate"@.len() == 18);
    assert("eval_provider"@.len() == 13);
    assert("eval_model"@.len() == 10);
    assert("eval_base_url"@.len() == 13);
    assert("eval_api_key"@.len() == 12);
    assert("eval_timeout_ms"@.len() == 15);
    assert("eval_enabled"@[5] != "eval_api_key"@[5]);
    assert("eval_provider"@[5] != "eval_base_url"@[5]);
    let rows = settings_rows(c);
    lemma_decimal_parses_back(effective_rate(c.sampling_rate) as nat, u32::MAX as int);
    lemma_decimal_parses_back(clamp_timeout(c.timeout_ms) as nat, u64::MAX as int);
    lemma_loaded_step(rows, 0);
    lemma_loaded_step(rows, 1);
    lemma_loaded_step(rows, 2);
    lemma_loaded_step(rows, 3);
    lemma_loaded_step(rows, 4);
    lemma_loaded_step(rows, 5);
    lemma_loaded_step(rows, 6);
    assert(rows.take(0) =~= Seq::<(Seq<char>, Seq<char>)>::empty());
    assert(rows.take(7) =~= rows);
    let c0 = default_eval_config();
    let c1 = apply_setting(c0, rows[0].0, rows[0].1);
    assert(loaded_settings(rows.take(1)) == c1);
    let c2 = apply_setting(c1, rows[1].0, rows[1].1);
    assert(loaded_settings(rows.take(2)) == c2);
    let c3 = apply_setting(c2, rows[2].0, rows[2].1);
    assert(loaded_settings(rows.take(3)) == c3);
    let c4 = apply_setting(c3, rows[3].0, rows[3].1);
    assert(loaded_settings(rows.take(4)) == c4);
    let c5 = apply_setting(c4, rows[4].0, rows[4].1);
    assert(loaded_settings(rows.take(5)) == c5);
    let c6 = apply_setting(c5, rows[5].0, rows[5].1);
    assert(loaded_settings(rows.take(6)) == c6);
    let c7 = apply_setting(c6, rows[6].0, rows[6].1);
    assert(loaded_settings(rows.take(7)) == c7);
    assert(c1.enabled == c.enabled);
    assert(c2.sampling_rate == effective_rate(c.sampling_rate));
    assert(c7.api_key == effective_key(c.api_key)) by {
        if c.api_key is None {
            assert(is_blank(Seq::<char>::empty()));
        }
    }
    assert(c7 == normalized_settings(c));
}

/// Law: settings accepted by [`save_settings`] read back, once stored,
/// exactly as saved, unless their API key is blank (it then reads back as none).
pub proof fn lemma_saved_settings_read_back(c: EvalConfigModel)
    requires
        settings_problem(c) is None,
        match c.api_key {
            Some(k) => !is_blank(k),
            None => true,
        },
    ensures
        loaded_settings(settings_rows(saved_settings(c))) == saved_settings(c),
{
    lemma_settings_round_trip(saved_settings(c));
}

} // verus!
