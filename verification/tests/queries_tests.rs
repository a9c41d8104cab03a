use claude_code_launch::queries::{
    avg_tokens_per_session, dashboard_cutoff_ms, plan_evaluation_query, plan_event_query, plan_sessions_query,
    page_offset_fits, plan_token_stats, scored_commits_paging, EvaluationQuery, EventQuery, SessionsQuery, SqlParam, TokenStatsQuery,
};

fn ints(params: &[SqlParam]) -> Vec<String> {
    params
        .iter()
        .map(|p| match p {
            SqlParam::Text(s) => format!("T:{s}"),
            SqlParam::Integer(i) => format!("I:{i}"),
        })
        .collect()
}

#[test]
fn event_query_supports_pagination() {
    let q = EventQuery {
        session_id: "session-2".to_string(),
        from_ms: None,
        to_ms: None,
        event_type: None,
        page: Some(1),
        page_size: Some(2),
    };
    let plan = plan_event_query(&q).ok().unwrap();
    assert_eq!(plan.page, 1);
    assert_eq!(plan.page_size, 2);
    assert_eq!(plan.count_sql, "SELECT COUNT(1) FROM events WHERE session_id = ? AND is_archived = 0");
    assert_eq!(ints(&plan.count_params), vec!["T:session-2"]);
    assert_eq!(ints(&plan.data_params), vec!["T:session-2", "I:2", "I:0"]);
    assert!(plan.data_sql.contains("ORDER BY created_at_ms DESC"));
    assert!(plan.data_sql.ends_with("LIMIT ? OFFSET ?"));
}

#[test]
fn event_query_filters_and_defaults() {
    let q = EventQuery {
        session_id: "s".to_string(),
        from_ms: Some(10),
        to_ms: Some(20),
        event_type: Some("tool.call".to_string()),
        page: Some(0),
        page_size: Some(1000),
    };
    let plan = plan_event_query(&q).ok().unwrap();
    assert_eq!(plan.page, 1);
    assert_eq!(plan.page_size, 200);
    assert_eq!(
        plan.count_sql,
        "SELECT COUNT(1) FROM events WHERE session_id = ? AND is_archived = 0 AND created_at_ms >= ? AND created_at_ms <= ? AND event_type = ?"
    );
    assert_eq!(ints(&plan.data_params), vec!["T:s", "I:10", "I:20", "T:tool.call", "I:200", "I:0"]);
    let q = EventQuery { session_id: "s".to_string(), from_ms: None, to_ms: None, event_type: None, page: Some(3), page_size: None };
    let plan = plan_event_query(&q).ok().unwrap();
    assert_eq!(plan.page_size, 50);
    assert_eq!(ints(&plan.data_params), vec!["T:s", "I:50", "I:100"]);
    let blank = EventQuery { session_id: "  ".to_string(), from_ms: None, to_ms: None, event_type: None, page: None, page_size: None };
    assert!(plan_event_query(&blank).is_err());
}

#[test]
fn evaluation_query_plan() {
    let q = EvaluationQuery { session_id: "s".to_string(), from_ms: None, to_ms: Some(5), page: Some(2), page_size: Some(10) };
    let plan = plan_evaluation_query(&q).ok().unwrap();
    assert_eq!(plan.count_sql, "SELECT COUNT(1) FROM evaluations WHERE session_id = ? AND created_at_ms <= ?");
    assert_eq!(ints(&plan.data_params), vec!["T:s", "I:5", "I:10", "I:10"]);
    assert!(plan.data_sql.contains("FROM evaluations\n         WHERE session_id = ? AND created_at_ms <= ?"));
}

#[test]
fn sessions_query_plan() {
    let plain = plan_sessions_query(&SessionsQuery { source: None, from_ms: None, to_ms: None });
    assert!(plain.params.is_empty());
    assert!(plain.sql.ends_with("OR s.source IN ('discovery', 'cursor-discovery'))\n        \n        ORDER BY s.last_active_at_ms DESC"));
    let filtered = plan_sessions_query(&SessionsQuery { source: Some("cursor".to_string()), from_ms: Some(1), to_ms: None });
    assert!(filtered.sql.contains("AND s.agent_type = ? AND s.last_active_at_ms >= ?\n        ORDER BY"));
    assert_eq!(ints(&filtered.params), vec!["T:cursor", "I:1"]);
}

#[test]
fn token_stats_number_their_placeholders() {
    let plan = plan_token_stats(&TokenStatsQuery { from_ms: None, to_ms: Some(9), source: Some("discovery".to_string()) });
    assert!(plan.totals_sql.ends_with("FROM sessions\n        WHERE last_active_at_ms <= ?1 AND source = ?2"));
    assert_eq!(ints(&plan.params), vec!["I:9", "T:discovery"]);
    let none = plan_token_stats(&TokenStatsQuery { from_ms: None, to_ms: None, source: None });
    assert!(none.daily_sql.contains("FROM sessions\n        \n        GROUP BY date"));
    assert!(none.params.is_empty());
    assert_eq!(avg_tokens_per_session(100, 50, 4), 37);
    assert_eq!(avg_tokens_per_session(100, 50, 0), 0);
    assert_eq!(avg_tokens_per_session(10, -17, 2), -3);
    assert_eq!(avg_tokens_per_session(i64::MIN, 0, 1), i64::MIN);
}

#[test]
fn dashboard_window() {
    assert_eq!(dashboard_cutoff_ms(None, 100 * 86_400_000), 70 * 86_400_000);
    assert_eq!(dashboard_cutoff_ms(Some(0), 86_400_000), 0);
    assert_eq!(dashboard_cutoff_ms(Some(1000), 400 * 86_400_000), 35 * 86_400_000);
}

#[test]
fn scored_commits_paging_values() {
    assert_eq!(scored_commits_paging(0, 50), (1, 50, 50, 0));
    assert_eq!(scored_commits_paging(3, 500), (3, 200, 200, 1000));
}

#[test]
fn blank_session_is_refused_before_paging() {
    let blank = EventQuery {
        session_id: " ".to_string(),
        from_ms: None,
        to_ms: None,
        event_type: None,
        page: Some(u32::MAX),
        page_size: Some(200),
    };
    assert!(!page_offset_fits(blank.page, blank.page_size));
    assert!(plan_event_query(&blank).is_err());
    let blank_eval = EvaluationQuery { session_id: String::new(), from_ms: None, to_ms: None, page: Some(u32::MAX), page_size: Some(200) };
    assert!(plan_evaluation_query(&blank_eval).is_err());
    assert!(page_offset_fits(Some(3), Some(2)));
    assert!(page_offset_fits(None, None));
    assert!(page_offset_fits(Some(21_474_837), Some(200)));
    assert!(!page_offset_fits(Some(21_474_838), Some(200)));
}
