//! Discovery of past sessions: the command-line agent's session metadata and facets,
//! Cursor's agent transcripts, the names and prompts shown for them, and
//! the tally of an import into the database.
use vstd::prelude::*;
use crate::json::{
    JsonValue, JsonModel, get, get_opt, as_str, as_u64, as_i64, json_get, json_get_opt, json_as_str,
    json_as_u64, json_as_i64, opt_model,
};
use crate::text::{
    chars_of, find, find_chars, is_first_occurrence, push_chars, push_str, string_from_chars, trim,
    trim_chars,
};
use crate::evaluation::trim_end_char;

verus! {

broadcast use vstd::string::group_string_axioms;

/// A session of the command-line agent, found in its usage data.
#[derive(Debug)]
pub struct DiscoveredSession {
    pub session_id: String,
    pub project_path: String,
    pub start_time_ms: i64,
    pub duration_minutes: u32,
    pub first_prompt: String,
    pub input_tokens: i64,
    pub output_tokens: i64,
    pub goal: String,
    pub outcome: String,
    pub summary: String,
    pub transcript_path: String,
}

/// A Cursor session found among its agent transcripts.
#[derive(Debug)]
pub struct CursorDiscoveredSession {
    pub session_id: String,
    pub project_name: String,
    pub encoded_project_dir: String,
    pub start_time_ms: i64,
    pub last_active_at_ms: i64,
    pub first_prompt: String,
    pub transcript_path: String,
    pub line_count: usize,
}

/// The outcome of importing discovered sessions.
#[derive(Debug)]
pub struct DiscoverResult {
    pub accepted: bool,
    pub scanned: usize,
    pub imported: usize,
    pub updated: usize,
    pub errors: usize,
}

// ---------------------------------------------------------------------
// Names
// ---------------------------------------------------------------------

/// The part of `s` after its last `c` (all of `s` when there is none).
pub open spec fn after_last(s: Seq<char>, c: char) -> Seq<char>
    decreases s.len(),
{
    if s.len() == 0 {
        s
    } else if s.last() == c {
        Seq::empty()
    } else {
        after_last(s.drop_last(), c).push(s.last())
    }
}

fn after_last_chars(s: &[char], c: char) -> (r: Vec<char>)
    ensures
        r@ == after_last(s@, c),
{
    let mut start: usize = s.len();
    assert(s@.take(start as int) =~= s@);
    while start > 0 && s[start - 1] != c
        invariant
            start <= s@.len(),
            after_last(s@, c) == after_last(s@.take(start as int), c) + s@.subrange(start as int, s@.len() as int),
        decreases start,
    {
        let ghost t = s@.take(start as int);
        assert(t.drop_last() =~= s@.take(start - 1));
        assert(t.last() == s@[start - 1]);
        assert(s@.subrange(start - 1, s@.len() as int) =~= seq![s@[start - 1]] + s@.subrange(start as int, s@.len() as int));
        assert(after_last(t, c) == after_last(t.drop_last(), c).push(t.last()));
        assert(after_last(t.drop_last(), c).push(t.last()) + s@.subrange(start as int, s@.len() as int)
            =~= after_last(t.drop_last(), c) + s@.subrange(start - 1, s@.len() as int));
        start = start - 1;
    }
    let mut r: Vec<char> = Vec::new();
    let mut i: usize = start;
    while i < s.len()
        invariant
            start <= i <= s@.len(),
            r@ == s@.subrange(start as int, i as int),
        decreases s@.len() - i,
    {
        r.push(s[i]);
        i = i + 1;
        assert(r@ =~= s@.subrange(start as int, i as int));
    }
    assert(after_last(s@.take(start as int), c) =~= Seq::<char>::empty()) by {
        if start > 0 {
            assert(s@.take(start as int).last() == c);
        }
    }
    r
}

/// The project a project path names: its last non-empty
/// `/`-separated segment, the whole path when it has none, `unknown` when empty.
pub open spec fn project_name_of_path(path: Seq<char>) -> Seq<char> {
    if path.len() == 0 {
        "unknown"@
    } else {
        let t = trim_end_char(path, '/');
        if t.len() == 0 { path } else { after_last(t, '/') }
    }
}

/// Names the project of a project path.
pub fn extract_project_name(project_path: &str) -> (r: String)
    ensures
        r@ == project_name_of_path(project_path@),
{
    let v = chars_of(project_path);
    if v.len() == 0 {
        return "unknown".to_string();
    }
    let mut end: usize = v.len();
    assert(v@.take(end as int) =~= v@);
    while end > 0 && v[end - 1] == '/'
        invariant
            end <= v@.len(),
            trim_end_char(v@, '/') == trim_end_char(v@.take(end as int), '/'),
        decreases end,
    {
        assert(v@.take(end as int).drop_last() =~= v@.take(end - 1));
        end = end - 1;
    }
    if end == 0 {
        assert(trim_end_char(v@.take(0), '/') =~= Seq::<char>::empty());
        return project_path.to_string();
    }
    let mut t: Vec<char> = Vec::new();
    let mut i: usize = 0;
    while i < end
        invariant
            i <= end <= v@.len(),
            t@ == v@.take(i as int),
        decreases end - i,
    {
        t.push(v[i]);
        i = i + 1;
        assert(t@ =~= v@.take(i as int));
    }
    assert(trim_end_char(t@, '/') == t@);
    let name = after_last_chars(&t, '/');
    string_from_chars(&name)
}

/// The project a Cursor project directory names: the part after its last
/// `-` when not empty, else the whole name; `unknown` when empty.
pub open spec fn project_name_of_encoded_dir(dir: Seq<char>) -> Seq<char> {
    if dir.len() == 0 {
        "unknown"@
    } else {
        let l = after_last(dir, '-');
        if l.len() == 0 { dir } else { l }
    }
}

/// Names the project of a Cursor project directory.
pub fn extract_cursor_project_name(encoded_dir: &str) -> (r: String)
    ensures
        r@ == project_name_of_encoded_dir(encoded_dir@),
{
    let v = chars_of(encoded_dir);
    if v.len() == 0 {
        return "unknown".to_string();
    }
    let l = after_last_chars(&v, '-');
    if l.len() == 0 {
        encoded_dir.to_string()
    } else {
        string_from_chars(&l)
    }
}

/// The directory name the agent keeps a project's transcripts under: the
/// project path with every `/` replaced by `-`.
pub fn encode_project_path(project_path: &str) -> (r: String)
    ensures
        r@ == crate::text::replace_char(project_path@, '/', '-'),
{
    let v = chars_of(project_path);
    let w = crate::text::replace_char_chars(&v, '/', '-');
    string_from_chars(&w)
}

// ---------------------------------------------------------------------
// Prompts
// ---------------------------------------------------------------------

/// `char::len_utf8`.
pub open spec fn char_utf8_len(c: char) -> int {
    if (c as u32) < 0x80 { 1 } else if (c as u32) < 0x800 { 2 } else if (c as u32) < 0x10000 { 3 } else { 4 }
}

/// The length of the UTF-8 encoding of `s`, in bytes.
pub open spec fn utf8_len(s: Seq<char>) -> int
    decreases s.len(),
{
    if s.len() == 0 { 0 } else { char_utf8_len(s[0]) + utf8_len(s.drop_first()) }
}

/// The characters of `s` whose encoding starts before byte `limit`.
pub open spec fn chars_starting_before(s: Seq<char>, limit: int) -> Seq<char>
    decreases s.len(),
{
    if s.len() == 0 || limit <= 0 {
        Seq::empty()
    } else {
        seq![s[0]] + chars_starting_before(s.drop_first(), limit - char_utf8_len(s[0]))
    }
}

/// A prompt as shown: kept whole up to 500 bytes of UTF-8, otherwise cut
/// after the last character that starts before byte 500 and followed by `…`.
pub open spec fn truncated_prompt(s: Seq<char>) -> Seq<char> {
    if utf8_len(s) <= 500 { s } else { chars_starting_before(s, 500) + "…"@ }
}

fn char_len_utf8(c: char) -> (r: u64)
    ensures
        r == char_utf8_len(c),
{
    let u = c as u32;
    if u < 0x80 { 1 } else if u < 0x800 { 2 } else if u < 0x10000 { 3 } else { 4 }
}

/// Shortens a prompt to about 500 bytes, on a character boundary.
pub fn truncate_prompt(s: &str) -> (r: String)
    ensures
        r@ == truncated_prompt(s@),
{
    let v = chars_of(s);
    let mut i: usize = 0;
    let mut off: u64 = 0;
    assert(v@.skip(0) =~= v@);
    assert(v@.take(0) =~= Seq::<char>::empty());
    while i < v.len() && off < 500
        invariant
            i <= v@.len(),
            off < 504,
            off + utf8_len(v@.skip(i as int)) == utf8_len(v@),
            chars_starting_before(v@, 500) == v@.take(i as int) + chars_starting_before(v@.skip(i as int), 500 - off),
        decreases v@.len() - i,
    {
        let ghost rest = v@.skip(i as int);
        assert(rest[0] == v@[i as int]);
        assert(rest.drop_first() =~= v@.skip(i + 1));
        assert(v@.take(i + 1) =~= v@.take(i as int) + seq![v@[i as int]]);
        let cl = char_len_utf8(v[i]);
        off = off + cl;
        i = i + 1;
    }
    if i == v.len() {
        assert(v@.skip(i as int) =~= Seq::<char>::empty());
        assert(v@.take(i as int) =~= v@);
        if off <= 500 {
            return s.to_string();
        }
    } else {
        let ghost rest = v@.skip(i as int);
        assert(rest[0] == v@[i as int]);
        assert(utf8_len(rest) >= 1) by {
            assert(utf8_len(rest) == char_utf8_len(rest[0]) + utf8_len(rest.drop_first()));
            lemma_utf8_len_nonneg(rest.drop_first());
        }
    }
    let mut out: Vec<char> = Vec::new();
    let mut k: usize = 0;
    while k < i
        invariant
            k <= i <= v@.len(),
            out@ == v@.take(k as int),
        decreases i - k,
    {
        out.push(v[k]);
        k = k + 1;
        assert(out@ =~= v@.take(k as int));
    }
    push_str(&mut out, "…");
    assert(chars_starting_before(v@.skip(i as int), 500 - off) =~= Seq::<char>::empty()) by {
        if i < v.len() {
            assert(500 - off <= 0);
        }
    }
    string_from_chars(&out)
}

proof fn lemma_utf8_len_nonneg(s: Seq<char>)
    ensures
        utf8_len(s) >= 0,
    decreases s.len(),
{
    if s.len() > 0 {
        lemma_utf8_len_nonneg(s.drop_first());
    }
}

/// The user query a text block carries: the trimmed text between
/// `<user_query>` and the next `</user_query>` when that is not empty,
/// otherwise the trimmed text when that is not empty.
pub open spec fn text_prompt(text: Seq<char>) -> Option<Seq<char>> {
    let tagged = match find(text, "<user_query>"@) {
        Some(start) => {
            let after = text.subrange(start + 12, text.len() as int);
            match find(after, "</user_query>"@) {
                Some(end) => {
                    let p = trim(after.take(end));
                    if p.len() > 0 { Some(p) } else { None }
                },
                None => None,
            }
        },
        None => None,
    };
    if tagged is Some {
        tagged
    } else {
        let t = trim(text);
        if t.len() > 0 { Some(t) } else { None }
    }
}

/// The prompt a content block yields: a `text` block's user query.
pub open spec fn block_prompt(block: JsonModel) -> Option<Seq<char>> {
    if json_as_str(json_get(block, "type"@)) == Some("text"@) {
        match json_as_str(json_get(block, "text"@)) {
            Some(text) => text_prompt(text),
            None => None,
        }
    } else {
        None
    }
}

/// The prompt of the first block that yields one.
pub open spec fn blocks_prompt(blocks: Seq<JsonModel>) -> Option<Seq<char>>
    decreases blocks.len(),
{
    if blocks.len() == 0 {
        None
    } else {
        match block_prompt(blocks[0]) {
            Some(p) => Some(p),
            None => blocks_prompt(blocks.drop_first()),
        }
    }
}

/// The prompt a transcript line yields: a user message's blocks' prompt.
pub open spec fn line_prompt(line: Option<JsonModel>) -> Option<Seq<char>> {
    match line {
        Some(v) => if json_as_str(json_get(v, "role"@)) == Some("user"@) {
            match json_get_opt(json_get(v, "message"@), "content"@) {
                Some(JsonModel::Array(blocks)) => blocks_prompt(blocks),
                _ => None,
            }
        } else {
            None
        },
        None => None,
    }
}

/// The prompt of the first line that yields one.
pub open spec fn lines_prompt(lines: Seq<Option<JsonModel>>) -> Option<Seq<char>>
    decreases lines.len(),
{
    if lines.len() == 0 {
        None
    } else {
        match line_prompt(lines[0]) {
            Some(p) => Some(p),
            None => lines_prompt(lines.drop_first()),
        }
    }
}

/// The models of parsed lines.
pub open spec fn parsed_lines(lines: Seq<Option<JsonValue>>) -> Seq<Option<JsonModel>> {
    Seq::new(lines.len(), |i: int| match lines[i] {
        Some(v) => Some(v@),
        None => None,
    })
}

/// The first prompt of a Cursor transcript, shown truncated: looked for in
/// its first 20 lines (`None` for a line that is not JSON), empty when none
/// yields one.
pub open spec fn first_prompt_of(lines: Seq<Option<JsonValue>>) -> Seq<char> {
    let first = if lines.len() <= 20 { lines } else { lines.take(20) };
    match lines_prompt(parsed_lines(first)) {
        Some(p) => truncated_prompt(p),
        None => Seq::empty(),
    }
}

fn subrange_chars(v: &[char], start: usize, end: usize) -> (r: Vec<char>)
    requires
        start <= end <= v@.len(),
    ensures
        r@ == v@.subrange(start as int, end as int),
{
    let mut r: Vec<char> = Vec::new();
    let mut i: usize = start;
    while i < end
        invariant
            start <= i <= end <= v@.len(),
            r@ == v@.subrange(start as int, i as int),
        decreases end - i,
    {
        r.push(v[i]);
        i = i + 1;
        assert(r@ =~= v@.subrange(start as int, i as int));
    }
    r
}

fn text_prompt_of(text: &str) -> (r: Option<Vec<char>>)
    ensures
        match r {
            Some(p) => text_prompt(text@) == Some(p@),
            None => text_prompt(text@) is None,
        },
{
    let v = chars_of(text);
    let open_tag = chars_of("<user_query>");
    let close_tag = chars_of("</user_query>");
    proof { reveal_strlit("<user_query>"); }
    if let Some(start) = find_chars(&v, &open_tag) {
        let after = subrange_chars(&v, start + 12, v.len());
        if let Some(end) = find_chars(&after, &close_tag) {
            assert(end <= after@.len()) by {
                assert(is_first_occurrence(after@, close_tag@, end as int));
            }
            let inner = subrange_chars(&after, 0, end);
            assert(inner@ =~= after@.take(end as int));
            let p = trim_chars(&inner);
            if p.len() > 0 {
                return Some(p);
            }
        }
    }
    let t = trim_chars(&v);
    if t.len() > 0 { Some(t) } else { None }
}

fn block_prompt_of(block: &JsonValue) -> (r: Option<Vec<char>>)
    ensures
        match r {
            Some(p) => block_prompt(block@) == Some(p@),
            None => block_prompt(block@) is None,
        },
{
    let kind = as_str(get(block, "type"));
    let is_text = match kind {
        Some(k) => {
            let kv = chars_of(k.as_str());
            let tv = chars_of("text");
            crate::json::slices_equal(&kv, &tv)
        }
        None => false,
    };
    if !is_text {
        return None;
    }
    match as_str(get(block, "text")) {
        Some(t) => text_prompt_of(t.as_str()),
        None => None,
    }
}

fn line_prompt_of(line: &Option<JsonValue>) -> (r: Option<Vec<char>>)
    ensures
        match r {
            Some(p) => line_prompt(match *line { Some(v) => Some(v@), None => None }) == Some(p@),
            None => line_prompt(match *line { Some(v) => Some(v@), None => None }) is None,
        },
{
    match line {
        None => None,
        Some(v) => {
            let is_user = match as_str(get(v, "role")) {
                Some(role) => {
                    let rv = chars_of(role.as_str());
                    let uv = chars_of("user");
                    crate::json::slices_equal(&rv, &uv)
                }
                None => false,
            };
            if !is_user {
                return None;
            }
            let content = get_opt(get(v, "message"), "content");
            match content {
                Some(JsonValue::Array(blocks)) => {
                    let ghost bm = Seq::new(blocks@.len(), |i: int| blocks@[i]@);
                    assert(opt_model(content) == Some(JsonModel::Array(bm))) by {
                        assert(JsonValue::Array(*blocks)@->Array_0 =~= bm);
                    }
                    let mut i: usize = 0;
                    assert(bm.subrange(0, bm.len() as int) =~= bm);
                    assert(line_prompt(match *line { Some(v) => Some(v@), None => None }) == blocks_prompt(bm));
                    while i < blocks.len()
                        invariant
                            line_prompt(match *line { Some(v) => Some(v@), None => None }) == blocks_prompt(bm),
                            i <= blocks@.len() == bm.len(),
                            forall|k: int| 0 <= k < bm.len() ==> #[trigger] bm[k] == blocks@[k]@,
                            blocks_prompt(bm) == blocks_prompt(bm.subrange(i as int, bm.len() as int)),
                        decreases blocks@.len() - i,
                    {
                        let ghost rest = bm.subrange(i as int, bm.len() as int);
                        assert(rest[0] == bm[i as int]);
                        assert(rest.drop_first() =~= bm.subrange(i + 1, bm.len() as int));
                        match block_prompt_of(&blocks[i]) {
                            Some(p) => {
                                return Some(p);
                            }
                            None => {}
                        }
                        i = i + 1;
                    }
                    None
                }
                _ => None,
            }
        }
    }
}

/// Finds the first prompt of a Cursor transcript from its parsed lines.
pub fn extract_first_prompt(lines: &[Option<JsonValue>]) -> (r: String)
    ensures
        r@ == first_prompt_of(lines@),
{
    let n: usize = if lines.len() <= 20 { lines.len() } else { 20 };
    let ghost first = if lines@.len() <= 20 { lines@ } else { lines@.take(20) };
    let ghost pl = parsed_lines(first);
    assert(pl.subrange(0, pl.len() as int) =~= pl);
    let mut i: usize = 0;
    while i < n
        invariant
            i <= n == pl.len(),
            n <= lines@.len(),
            first == if lines@.len() <= 20 { lines@ } else { lines@.take(20) },
            pl == parsed_lines(first),
            lines_prompt(pl) == lines_prompt(pl.subrange(i as int, n as int)),
        decreases n - i,
    {
        let ghost rest = pl.subrange(i as int, n as int);
        assert(rest[0] == pl[i as int]);
        assert(first[i as int] == lines@[i as int]);
        assert(rest.drop_first() =~= pl.subrange(i + 1, n as int));
        match line_prompt_of(&lines[i]) {
            Some(p) => {
                let ps = string_from_chars(&p);
                return truncate_prompt(ps.as_str());
            }
            None => {}
        }
        i = i + 1;
    }
    String::new()
}

// ---------------------------------------------------------------------
// Session metadata
// ---------------------------------------------------------------------

/// `DateTime::parse_from_rfc3339(text)` read as milliseconds since the epoch.
pub uninterp spec fn rfc3339_millis(text: Seq<char>) -> Option<int>;

/// Parses an RFC 3339 date with `chrono::DateTime::parse_from_rfc3339` and
/// reads its `timestamp_millis`; the result is named, not described.
#[verifier::external_body]
fn parse_rfc3339_millis(text: &str) -> (r: Option<i64>)
    ensures
        match r {
            Some(ms) => rfc3339_millis(text@) == Some(ms as int),
            None => rfc3339_millis(text@) is None,
        },
{
    match chrono::DateTime::parse_from_rfc3339(text) {
        Ok(dt) => Some(dt.timestamp_millis()),
        Err(_) => None,
    }
}

/// `NaiveDateTime::parse_from_str(text, "%Y-%m-%dT%H:%M:%S%.fZ")`, taken as
/// UTC and read as milliseconds since the epoch.
pub uninterp spec fn utc_pattern_millis(text: Seq<char>) -> Option<int>;

/// Parses a `...Z` date with `chrono::NaiveDateTime::parse_from_str` and
/// the pattern `%Y-%m-%dT%H:%M:%S%.fZ`, reads it as UTC, and returns its
/// `timestamp_millis`; the result is named, not described.
#[verifier::external_body]
fn parse_utc_pattern_millis(text: &str) -> (r: Option<i64>)
    ensures
        match r {
            Some(ms) => utc_pattern_millis(text@) == Some(ms as int),
            None => utc_pattern_millis(text@) is None,
        },
{
    match chrono::NaiveDateTime::parse_from_str(text, "%Y-%m-%dT%H:%M:%S%.fZ") {
        Ok(dt) => Some(dt.and_utc().timestamp_millis()),
        Err(_) => None,
    }
}

/// When a session started: `start_time_ms` when it is an integer, else
/// `start_time` read as RFC 3339, else as `...Z` UTC time, else 0.
pub open spec fn start_time_of(meta: JsonModel) -> int {
    match json_as_i64(json_get(meta, "start_time_ms"@)) {
        Some(ms) => ms,
        None => match json_as_str(json_get(meta, "start_time"@)) {
            Some(iso) => match rfc3339_millis(iso) {
                Some(ms) => ms,
                None => match utc_pattern_millis(iso) {
                    Some(ms) => ms,
                    None => 0,
                },
            },
            None => 0,
        },
    }
}

/// Reads when a session started from its metadata.
pub fn parse_start_time(meta: &JsonValue) -> (r: i64)
    ensures
        r == start_time_of(meta@),
{
    if let Some(ms) = as_i64(get(meta, "start_time_ms")) {
        return ms;
    }
    if let Some(iso) = as_str(get(meta, "start_time")) {
        if let Some(ms) = parse_rfc3339_millis(iso.as_str()) {
            return ms;
        }
        if let Some(ms) = parse_utc_pattern_millis(iso.as_str()) {
            return ms;
        }
    }
    0
}

/// A string field of a JSON object, empty when missing or not a string.
pub open spec fn str_field(v: JsonModel, key: Seq<char>) -> Seq<char> {
    match json_as_str(json_get(v, key)) {
        Some(s) => s,
        None => Seq::empty(),
    }
}

fn str_field_of(v: &JsonValue, key: &str) -> (r: String)
    ensures
        r@ == str_field(v@, key@),
{
    match as_str(get(v, key)) {
        Some(s) => s.clone(),
        None => String::new(),
    }
}

/// The session id a metadata file names, when not blank.
pub open spec fn meta_session_id(meta: JsonModel) -> Option<Seq<char>> {
    match json_as_str(json_get(meta, "session_id"@)) {
        Some(id) => if trim(id).len() > 0 { Some(id) } else { None },
        None => None,
    }
}

/// Reads the session id of a metadata file.
pub fn session_id_of_meta(meta: &JsonValue) -> (r: Option<String>)
    ensures
        match r {
            Some(id) => meta_session_id(meta@) == Some(id@),
            None => meta_session_id(meta@) is None,
        },
{
    match as_str(get(meta, "session_id")) {
        Some(id) => {
            let t = crate::text::trim_str(id.as_str());
            if t.as_str().is_empty() { None } else { Some(id.clone()) }
        }
        None => None,
    }
}

/// Reads the project path of a metadata file (empty when missing).
pub fn project_path_of_meta(meta: &JsonValue) -> (r: String)
    ensures
        r@ == str_field(meta@, "project_path"@),
{
    str_field_of(meta, "project_path")
}

/// The goal, outcome and summary a facet file gives (empty when there is none).
pub open spec fn facets_of(facet: Option<JsonModel>) -> (Seq<char>, Seq<char>, Seq<char>) {
    match facet {
        Some(f) => (str_field(f, "underlying_goal"@), str_field(f, "outcome"@), str_field(f, "brief_summary"@)),
        None => (Seq::empty(), Seq::empty(), Seq::empty()),
    }
}

/// The session a metadata file describes, with its facets (`None` when
/// the facet file is missing or unreadable) and its transcript path; none
/// when the metadata names no session.
pub fn discovered_session(meta: &JsonValue, facet: Option<&JsonValue>, transcript_path: String) -> (r: Option<DiscoveredSession>)
    ensures
        meta_session_id(meta@) is None ==> r is None,
        meta_session_id(meta@) matches Some(id) ==> (r matches Some(s) && {
            &&& s.session_id@ == id
            &&& s.project_path@ == str_field(meta@, "project_path"@)
            &&& s.start_time_ms == start_time_of(meta@)
            &&& s.duration_minutes == (match json_as_u64(json_get(meta@, "duration_minutes"@)) {
                Some(d) => d,
                None => 0,
            }) as u32
            &&& s.first_prompt@ == str_field(meta@, "first_prompt"@)
            &&& s.input_tokens == (match json_as_i64(json_get(meta@, "input_tokens"@)) { Some(t) => t, None => 0 })
            &&& s.output_tokens == (match json_as_i64(json_get(meta@, "output_tokens"@)) { Some(t) => t, None => 0 })
            &&& (s.goal@, s.outcome@, s.summary@) == facets_of(opt_model(facet))
            &&& s.transcript_path@ == transcript_path@
        }),
{
    let session_id = match session_id_of_meta(meta) {
        Some(id) => id,
        None => return None,
    };
    let duration: u64 = match as_u64(get(meta, "duration_minutes")) {
        Some(d) => d,
        None => 0,
    };
    let input_tokens: i64 = match as_i64(get(meta, "input_tokens")) {
        Some(t) => t,
        None => 0,
    };
    let output_tokens: i64 = match as_i64(get(meta, "output_tokens")) {
        Some(t) => t,
        None => 0,
    };
    let (goal, outcome, summary) = match facet {
        Some(f) => (
            str_field_of(f, "underlying_goal"),
            str_field_of(f, "outcome"),
            str_field_of(f, "brief_summary"),
        ),
        None => (String::new(), String::new(), String::new()),
    };
    Some(DiscoveredSession {
        session_id,
        project_path: str_field_of(meta, "project_path"),
        start_time_ms: parse_start_time(meta),
        duration_minutes: duration as u32,
        first_prompt: str_field_of(meta, "first_prompt"),
        input_tokens,
        output_tokens,
        goal,
        outcome,
        summary,
        transcript_path,
    })
}

/// `Path::new(base).join(part)` as text, with the separator of the platform
/// the crate is built for.
pub uninterp spec fn joined_path(base: Seq<char>, part: Seq<char>) -> Seq<char>;

/// Joins a path component onto a base path with `std::path::Path::join`;
/// the result is named, not described.
#[verifier::external_body]
pub(crate) fn path_join(base: &str, part: &str) -> (r: String)
    ensures
        r@ == joined_path(base@, part@),
{
    std::path::Path::new(base).join(part).to_string_lossy().to_string()
}

/// Where the transcript of a session would be: under the projects
/// directory, in the encoded project directory, `<session id>.jsonl`;
/// nowhere when the project path is empty.
pub open spec fn transcript_candidate_path(projects_dir: Seq<char>, project_path: Seq<char>, session_id: Seq<char>) -> Option<Seq<char>> {
    if project_path.len() == 0 {
        None
    } else {
        Some(joined_path(
            joined_path(projects_dir, crate::text::replace_char(project_path, '/', '-')),
            session_id + ".jsonl"@,
        ))
    }
}

/// Computes where the transcript of a session would be.
pub fn transcript_candidate(projects_dir: &str, project_path: &str, session_id: &str) -> (r: Option<String>)
    ensures
        match r {
            Some(p) => transcript_candidate_path(projects_dir@, project_path@, session_id@) == Some(p@),
            None => transcript_candidate_path(projects_dir@, project_path@, session_id@) is None,
        },
{
    if project_path.is_empty() {
        return None;
    }
    let encoded = encode_project_path(project_path);
    let dir = path_join(projects_dir, encoded.as_str());
    let mut name: Vec<char> = Vec::new();
    push_str(&mut name, session_id);
    push_str(&mut name, ".jsonl");
    let file = string_from_chars(&name);
    Some(path_join(dir.as_str(), file.as_str()))
}

/// When a discovered session was last active: its start plus its duration
/// when it has one.
pub fn session_end_ms(start_time_ms: i64, duration_minutes: u32) -> (r: i64)
    requires
        start_time_ms + duration_minutes * 60_000 <= i64::MAX,
    ensures
        r == if duration_minutes > 0 { start_time_ms + duration_minutes * 60_000 } else { start_time_ms as int },
{
    if duration_minutes > 0 {
        start_time_ms + (duration_minutes as i64) * 60_000
    } else {
        start_time_ms
    }
}

// ---------------------------------------------------------------------
// Import tally
// ---------------------------------------------------------------------

/// What storing one discovered session did: it was already known or not,
/// and the write changed a row, changed none, or failed.
#[derive(Debug)]
pub struct ImportOutcome {
    pub existing: bool,
    pub written: Result<bool, String>,
}

/// Sessions newly imported among the outcomes.
pub open spec fn imported_count(o: Seq<ImportOutcome>) -> nat
    decreases o.len(),
{
    if o.len() == 0 {
        0
    } else {
        imported_count(o.drop_last()) + if !o.last().existing && o.last().written == Ok::<bool, String>(true) { 1nat } else { 0nat }
    }
}

/// Known sessions updated among the outcomes.
pub open spec fn updated_count(o: Seq<ImportOutcome>) -> nat
    decreases o.len(),
{
    if o.len() == 0 {
        0
    } else {
        updated_count(o.drop_last()) + if o.last().existing && o.last().written == Ok::<bool, String>(true) { 1nat } else { 0nat }
    }
}

/// Failed writes among the outcomes.
pub open spec fn error_count(o: Seq<ImportOutcome>) -> nat
    decreases o.len(),
{
    if o.len() == 0 {
        0
    } else {
        error_count(o.drop_last()) + if o.last().written is Err { 1nat } else { 0nat }
    }
}

/// Law: every session is counted at most once, as imported, updated or failed.
pub proof fn lemma_tally_bounded(o: Seq<ImportOutcome>)
    ensures
        imported_count(o) + updated_count(o) + error_count(o) <= o.len(),
    decreases o.len(),
{
    if o.len() > 0 {
        lemma_tally_bounded(o.drop_last());
    }
}

/// The outcome of an import: the sessions scanned, and from the outcomes
/// of their writes the imported, updated and failed ones; when the
/// transaction did not commit, every session counts as failed and none as
/// imported or updated.
pub fn tally_import(scanned: usize, outcomes: &[ImportOutcome], committed: bool) -> (r: DiscoverResult)
    requires
        outcomes@.len() <= scanned,
    ensures
        r.accepted,
        r.scanned == scanned,
        committed ==> r.imported == imported_count(outcomes@) && r.updated == updated_count(outcomes@)
            && r.errors == error_count(outcomes@),
        !committed ==> r.imported == 0 && r.updated == 0 && r.errors == scanned,
{
    let mut imported: usize = 0;
    let mut updated: usize = 0;
    let mut errors: usize = 0;
    let mut i: usize = 0;
    while i < outcomes.len()
        invariant
            i <= outcomes@.len() <= scanned,
            imported == imported_count(outcomes@.take(i as int)),
            updated == updated_count(outcomes@.take(i as int)),
            errors == error_count(outcomes@.take(i as int)),
        decreases outcomes@.len() - i,
    {
        proof {
            lemma_tally_bounded(outcomes@.take(i as int));
            assert(outcomes@.take(i + 1).drop_last() =~= outcomes@.take(i as int));
            assert(outcomes@.take(i + 1).last() == outcomes@[i as int]);
        }
        match &outcomes[i].written {
            Ok(true) => {
                if outcomes[i].existing {
                    updated = updated + 1;
                } else {
                    imported = imported + 1;
                }
            }
            Ok(false) => {}
            Err(_) => {
                errors = errors + 1;
            }
        }
        i = i + 1;
    }
    assert(outcomes@.take(outcomes@.len() as int) =~= outcomes@);
    if !committed {
        return DiscoverResult { accepted: true, scanned, imported: 0, updated: 0, errors: scanned };
    }
    DiscoverResult { accepted: true, scanned, imported, updated, errors }
}

/// The outcome of an import that could not start (the known sessions could
/// not be read or the transaction not begun): every session failed.
pub fn failed_import(scanned: usize) -> (r: DiscoverResult)
    ensures
        r.accepted,
        r.scanned == scanned,
        r.imported == 0,
        r.updated == 0,
        r.errors == scanned,
{
    DiscoverResult { accepted: true, scanned, imported: 0, updated: 0, errors: scanned }
}

/// Whether a session id is among the known ones.
pub fn contains_id(ids: &[String], id: &str) -> (r: bool)
    ensures
        r == crate::process_log::views(ids@).contains(id@),
{
    let target = chars_of(id);
    let mut i: usize = 0;
    while i < ids.len()
        invariant
            i <= ids@.len(),
            target@ == id@,
            forall|k: int| 0 <= k < i ==> ids@[k]@ != id@,
        decreases ids@.len() - i,
    {
        let cur = chars_of(ids[i].as_str());
        if crate::json::slices_equal(&cur, &target) {
            assert(crate::process_log::views(ids@)[i as int] == id@);
            return true;
        }
        i = i + 1;
    }
    assert(!crate::process_log::views(ids@).contains(id@)) by {
        if crate::process_log::views(ids@).contains(id@) {
            let k = choose|k: int| 0 <= k < crate::process_log::views(ids@).len() && crate::process_log::views(ids@)[k] == id@;
            assert(ids@[k]@ == id@);
        }
    }
    false
}

} // verus!
