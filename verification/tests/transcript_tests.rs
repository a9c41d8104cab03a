use claude_code_launch::transcript::{
    finish_transcript_read, plan_transcript_read, split_transcript_lines, text_lines_of, transcript_page,
    transcript_page_size, validate_transcript_path, TranscriptLineItem, TranscriptSyncState,
};

fn state(path: &str, offset: i64, mtime: i64, pending: &str) -> TranscriptSyncState {
    TranscriptSyncState {
        transcript_path: path.to_string(),
        imported_offset_bytes: offset,
        file_mtime_ms: mtime,
        pending_fragment: pending.to_string(),
    }
}

#[test]
fn transcript_sync_imports_and_appends_incrementally() {
    let path = "/home/u/.agent-test/append.jsonl";
    let first = "{\"msg\":\"one\"}\n";
    let plan = plan_transcript_read(path, None, first.len() as i64, 10);
    assert_eq!(plan.offset, 0);
    let r1 = finish_transcript_read(plan, first.as_bytes(), 10, first.len() as i64);
    assert_eq!(r1.lines, vec!["{\"msg\":\"one\"}\n".to_string()]);
    assert_eq!(r1.next_offset_bytes, first.len() as i64);
    let whole = "{\"msg\":\"one\"}\n{\"msg\":\"two\"}\n";
    let st = state(path, r1.next_offset_bytes, 10, &r1.pending_fragment);
    let plan = plan_transcript_read(path, Some(&st), whole.len() as i64, 11);
    assert_eq!(plan.offset, first.len() as i64);
    assert!(!plan.reset_content);
    let chunk = &whole.as_bytes()[plan.offset as usize..];
    let r2 = finish_transcript_read(plan, chunk, 11, whole.len() as i64);
    assert_eq!(r2.lines, vec!["{\"msg\":\"two\"}\n".to_string()]);
    assert!(r2.next_offset_bytes > r1.next_offset_bytes);
    let st = state(path, r2.next_offset_bytes, 11, &r2.pending_fragment);
    let plan = plan_transcript_read(path, Some(&st), whole.len() as i64, 11);
    let r3 = finish_transcript_read(plan, &[], 11, whole.len() as i64);
    assert!(r3.lines.is_empty());
    assert_eq!(r3.next_offset_bytes, whole.len() as i64);
}

#[test]
fn transcript_sync_merges_pending_fragment_before_inserting_lines() {
    let (lines, pending) = split_transcript_lines("", "{\"msg\":\"first\"}");
    assert!(lines.is_empty());
    assert_eq!(pending, "{\"msg\":\"first\"}");
    let (lines, pending) = split_transcript_lines(&pending, "\n{\"msg\":\"second\"}\n");
    assert_eq!(lines, vec!["{\"msg\":\"first\"}\n".to_string(), "{\"msg\":\"second\"}\n".to_string()]);
    assert_eq!(pending, "");
}

#[test]
fn transcript_sync_resets_when_file_truncated() {
    let st = state("/p.jsonl", 40, 100, "partial");
    let plan = plan_transcript_read("/p.jsonl", Some(&st), 16, 200);
    assert!(plan.reset_content);
    assert_eq!(plan.offset, 0);
    assert_eq!(plan.pending_fragment, "");
    let plan = plan_transcript_read("/other.jsonl", Some(&st), 100, 200);
    assert!(plan.reset_content);
    let plan = plan_transcript_read("/p.jsonl", Some(&st), 100, 50);
    assert!(plan.reset_content);
    let plan = plan_transcript_read("/p.jsonl", Some(&st), 100, 200);
    assert!(!plan.reset_content);
    assert_eq!(plan.offset, 40);
    assert_eq!(plan.pending_fragment, "partial");
}

#[test]
fn carriage_returns_are_dropped_from_lines() {
    let (lines, pending) = split_transcript_lines("a", "b\r\nc\n\r");
    assert_eq!(lines, vec!["ab\n".to_string(), "c\n".to_string()]);
    assert_eq!(pending, "\r");
    assert_eq!(text_lines_of("x\r\ny\n\nz\r"), vec!["x".to_string(), "y".to_string(), "".to_string(), "z\r".to_string()]);
}

#[test]
fn transcript_paths_are_validated() {
    assert_eq!(
        validate_transcript_path("/home/u/.t/a.jsonl", Some("/home/u"), Some("/home/u/.t/a.jsonl".to_string())).as_deref(),
        Some("/home/u/.t/a.jsonl")
    );
    assert!(validate_transcript_path("/home/u/../etc/a.jsonl", Some("/home/u"), None).is_none());
    assert!(validate_transcript_path("/home/u/a.json", Some("/home/u"), None).is_none());
    assert!(validate_transcript_path("/tmp/a.jsonl", Some("/home/u"), Some("/tmp/a.jsonl".to_string())).is_none());
    assert_eq!(validate_transcript_path("/home/u/missing.jsonl", Some("/home/u"), None).as_deref(), Some("/home/u/missing.jsonl"));
    assert_eq!(validate_transcript_path("/anywhere/x.jsonl", None, None).as_deref(), Some("/anywhere/x.jsonl"));
}

fn row(n: i64, text: &str) -> TranscriptLineItem {
    TranscriptLineItem { line_no: n, line_content: text.to_string() }
}

#[test]
fn transcript_query_supports_cursor_pagination_for_older_lines() {
    let rows = vec![row(3, "{\"msg\":\"three\"}"), row(2, "{\"msg\":\"two\"}"), row(1, "{\"msg\":\"one\"}")];
    let page = transcript_page(&rows, 2);
    assert!(page.has_more);
    assert_eq!(page.next_before_line_no, Some(2));
    let nums: Vec<i64> = page.items.iter().map(|i| i.line_no).collect();
    assert_eq!(nums, vec![2, 3]);
    let older = vec![row(1, "{\"msg\":\"one\"}")];
    let page = transcript_page(&older, 2);
    assert!(!page.has_more);
    assert_eq!(page.next_before_line_no, None);
    assert_eq!(page.items.len(), 1);
}

#[test]
fn transcript_pages_skip_invalid_lines_unless_all_are() {
    let rows = vec![row(3, "not json"), row(2, "   "), row(1, "{\"a\":1}")];
    let page = transcript_page(&rows, 5);
    assert_eq!(page.skipped_lines, 1);
    let nums: Vec<i64> = page.items.iter().map(|i| i.line_no).collect();
    assert_eq!(nums, vec![1, 2]);
    let bad = vec![row(2, "x"), row(1, "[1]")];
    let page = transcript_page(&bad, 5);
    assert_eq!(page.skipped_lines, 2);
    assert_eq!(page.items.len(), 2);
    assert_eq!(transcript_page_size(None), 200);
    assert_eq!(transcript_page_size(Some(0)), 1);
    assert_eq!(transcript_page_size(Some(9999)), 500);
}
