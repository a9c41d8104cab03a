//! Incremental import of agent transcripts (JSON-lines files): where to
//! resume reading, how a chunk is cut into complete lines, which paths may
//! be read, and how a page of stored lines is answered.
use vstd::prelude::*;
use crate::json::{json_text_is_object, json_text_is_object_exec, JsonValue, JsonModel, get, get_opt, as_str, json_get, json_get_opt, json_as_str, opt_model};
use crate::text::{text_lines, chars_of, string_from_chars, push_chars, push_str, trim, trim_chars, is_blank, is_blank_str, is_blank_chars};

verus! {

broadcast use vstd::string::group_string_axioms;

/// The most bytes read from a transcript file in one sync.
pub const TRANSCRIPT_SYNC_MAX_BYTES: usize = 1048576;

/// What was imported of a session's transcript so far.
#[derive(Debug)]
pub struct TranscriptSyncState {
    pub transcript_path: String,
    pub imported_offset_bytes: i64,
    pub file_mtime_ms: i64,
    pub pending_fragment: String,
}

/// Where the next read of a transcript starts.
#[derive(Debug)]
pub struct TranscriptReadPlan {
    pub offset: i64,
    pub pending_fragment: String,
    pub reset_content: bool,
}

/// The outcome of reading one chunk of a transcript.
#[derive(Debug)]
pub struct TranscriptReadResult {
    pub lines: Vec<String>,
    pub pending_fragment: String,
    pub next_offset_bytes: i64,
    pub file_mtime_ms: i64,
    pub file_size_bytes: i64,
    pub reset_content: bool,
}

// ---------------------------------------------------------------------
// Cutting text into lines
// ---------------------------------------------------------------------

/// A line without its trailing carriage return, if any.
pub open spec fn strip_cr(line: Seq<char>) -> Seq<char> {
    if line.len() > 0 && line.last() == '\r' { line.drop_last() } else { line }
}

/// The complete lines of `s`, each ending in `'\n'` (a `"\r\n"` ending is
/// written as `'\n'`), and the incomplete text after the last newline.
pub open spec fn split_lines(s: Seq<char>) -> (Seq<Seq<char>>, Seq<char>)
    decreases s.len(),
{
    if s.len() == 0 {
        (Seq::empty(), Seq::empty())
    } else {
        let (lines, cur) = split_lines(s.drop_last());
        if s.last() == '\n' {
            (lines.push(strip_cr(cur).push('\n')), Seq::empty())
        } else {
            (lines, cur.push(s.last()))
        }
    }
}

/// The fragment left after splitting holds no newline.
pub proof fn lemma_split_fragment_has_no_newline(s: Seq<char>)
    ensures
        forall|i: int| 0 <= i < split_lines(s).1.len() ==> split_lines(s).1[i] != '\n',
    decreases s.len(),
{
    if s.len() > 0 {
        lemma_split_fragment_has_no_newline(s.drop_last());
        let cur = split_lines(s.drop_last()).1;
        if s.last() != '\n' {
            assert forall|i: int| 0 <= i < split_lines(s).1.len() implies split_lines(s).1[i] != '\n' by {
                if i < cur.len() {
                    assert(cur.push(s.last())[i] == cur[i]);
                }
            }
        }
    }
}

/// Every complete line ends with its newline.
pub proof fn lemma_split_lines_nonempty(s: Seq<char>)
    ensures
        forall|k: int| 0 <= k < split_lines(s).0.len() ==> (#[trigger] split_lines(s).0[k]).len() > 0,
    decreases s.len(),
{
    if s.len() > 0 {
        lemma_split_lines_nonempty(s.drop_last());
        let (lines, cur) = split_lines(s.drop_last());
        if s.last() == '\n' {
            assert forall|k: int| 0 <= k < split_lines(s).0.len() implies (#[trigger] split_lines(s).0[k]).len() > 0 by {
                if k < lines.len() {
                    assert(split_lines(s).0[k] == lines[k]);
                }
            }
        }
    }
}

/// Text without a newline is all fragment.
pub proof fn lemma_split_without_newline(s: Seq<char>)
    requires
        forall|i: int| 0 <= i < s.len() ==> s[i] != '\n',
    ensures
        split_lines(s) == (Seq::<Seq<char>>::empty(), s),
    decreases s.len(),
{
    if s.len() > 0 {
        assert(s.last() == s[s.len() - 1]);
        assert forall|i: int| 0 <= i < s.drop_last().len() implies s.drop_last()[i] != '\n' by {
            assert(s.drop_last()[i] == s[i]);
        }
        lemma_split_without_newline(s.drop_last());
        assert(s.drop_last().push(s.last()) =~= s);
    }
}

/// Law: splitting `x + y` at once gives the lines of `x`, followed by the
/// lines and fragment of the fragment of `x` continued with `y`. This is
/// what lets a transcript be imported chunk by chunk, carrying the pending
/// fragment from one sync to the next.
pub proof fn lemma_split_lines_incremental(x: Seq<char>, y: Seq<char>)
    ensures
        split_lines(x + y) == (
            split_lines(x).0 + split_lines(split_lines(x).1 + y).0,
            split_lines(split_lines(x).1 + y).1,
        ),
    decreases y.len(),
{
    let p = split_lines(x).1;
    if y.len() == 0 {
        assert(x + y =~= x);
        assert(p + y =~= p);
        lemma_split_fragment_has_no_newline(x);
        lemma_split_without_newline(p);
        assert(split_lines(x).0 + Seq::<Seq<char>>::empty() =~= split_lines(x).0);
    } else {
        let y0 = y.drop_last();
        let c = y.last();
        lemma_split_lines_incremental(x, y0);
        assert((x + y).drop_last() =~= x + y0);
        assert((x + y).last() == c);
        assert((p + y).drop_last() =~= p + y0);
        assert((p + y).last() == c);
        let inner = split_lines(p + y0);
        if c == '\n' {
            assert(split_lines(x).0 + inner.0.push(strip_cr(inner.1).push('\n'))
                =~= (split_lines(x).0 + inner.0).push(strip_cr(inner.1).push('\n')));
        }
    }
}

/// Law: splitting the pending fragment followed by two chunks, one sync at
/// a time, yields the same lines and fragment as splitting all the text at once.
pub proof fn lemma_split_two_syncs(pending: Seq<char>, a: Seq<char>, b: Seq<char>)
    ensures
        ({
            let first = split_lines(pending + a);
            let second = split_lines(first.1 + b);
            split_lines(pending + a + b) == (first.0 + second.0, second.1)
        }),
{
    lemma_split_lines_incremental(pending + a, b);
}

/// Splits `pending_fragment + chunk` into complete lines and the new fragment.
pub fn split_transcript_lines(pending_fragment: &str, chunk: &str) -> (r: (Vec<String>, String))
    ensures
        r.0@.len() == split_lines(pending_fragment@ + chunk@).0.len(),
        forall|i: int| 0 <= i < r.0@.len() ==> #[trigger] r.0@[i]@ == split_lines(pending_fragment@ + chunk@).0[i],
        r.1@ == split_lines(pending_fragment@ + chunk@).1,
{
    let mut combined: Vec<char> = Vec::new();
    push_str(&mut combined, pending_fragment);
    push_str(&mut combined, chunk);
    let mut lines: Vec<String> = Vec::new();
    let mut cur: Vec<char> = Vec::new();
    let mut i: usize = 0;
    while i < combined.len()
        invariant
            i <= combined@.len(),
            lines@.len() == split_lines(combined@.take(i as int)).0.len(),
            forall|k: int| 0 <= k < lines@.len() ==> #[trigger] lines@[k]@ == split_lines(combined@.take(i as int)).0[k],
            cur@ == split_lines(combined@.take(i as int)).1,
        decreases combined@.len() - i,
    {
        let c = combined[i];
        assert(combined@.take(i + 1).drop_last() =~= combined@.take(i as int));
        assert(combined@.take(i + 1).last() == c);
        if c == '\n' {
            let mut line: Vec<char> = Vec::new();
            let mut end = cur.len();
            if end > 0 && cur[end - 1] == '\r' {
                end = end - 1;
            }
            let mut k: usize = 0;
            while k < end
                invariant
                    k <= end <= cur@.len(),
                    line@ == cur@.take(k as int),
                decreases end - k,
            {
                line.push(cur[k]);
                k = k + 1;
                assert(line@ =~= cur@.take(k as int));
            }
            assert(line@ =~= strip_cr(cur@));
            line.push('\n');
            let ghost old_lines = lines@;
            lines.push(string_from_chars(&line));
            assert forall|k2: int| 0 <= k2 < lines@.len() implies #[trigger] lines@[k2]@ == split_lines(combined@.take(i + 1)).0[k2] by {
                if k2 < old_lines.len() {
                    assert(lines@[k2] == old_lines[k2]);
                }
            }
            cur = Vec::new();
        } else {
            cur.push(c);
        }
        i = i + 1;
    }
    assert(combined@.take(combined@.len() as int) =~= combined@);
    (lines, string_from_chars(&cur))
}

/// `str::lines` collected into strings.
pub fn text_lines_of(s: &str) -> (r: Vec<String>)
    ensures
        r@.len() == text_lines(s@).len(),
        forall|i: int| 0 <= i < r@.len() ==> #[trigger] r@[i]@ == text_lines(s@)[i],
{
    let (lines, fragment) = split_transcript_lines("", s);
    proof {
        reveal_strlit("");
        assert(""@ + s@ =~= s@);
    }
    let ghost sp = split_lines(s@);
    proof { lemma_split_lines_nonempty(s@); }
    let ghost complete = sp.0.map_values(|l: Seq<char>| l.drop_last());
    let mut out: Vec<String> = Vec::new();
    let mut i: usize = 0;
    while i < lines.len()
        invariant
            i <= lines@.len() == sp.0.len(),
            forall|k: int| 0 <= k < lines@.len() ==> #[trigger] lines@[k]@ == sp.0[k],
            forall|k: int| 0 <= k < sp.0.len() ==> (#[trigger] sp.0[k]).len() > 0,
            out@.len() == i,
            forall|k: int| 0 <= k < i ==> #[trigger] out@[k]@ == complete[k],
            complete == sp.0.map_values(|l: Seq<char>| l.drop_last()),
        decreases lines@.len() - i,
    {
        let v = chars_of(lines[i].as_str());
        let mut w: Vec<char> = Vec::new();
        let mut j: usize = 0;
        let end: usize = if v.len() > 0 { v.len() - 1 } else { 0 };
        while j < end
            invariant
                j <= end <= v@.len(),
                end == if v@.len() > 0 { v@.len() - 1 } else { 0 },
                w@ == v@.take(j as int),
            decreases end - j,
        {
            w.push(v[j]);
            j = j + 1;
            assert(w@ =~= v@.take(j as int));
        }
        assert(v@ == sp.0[i as int]);
        assert(w@ =~= v@.drop_last());
        out.push(string_from_chars(&w));
        i = i + 1;
    }
    if fragment.as_str().is_empty() {
        assert(text_lines(s@) =~= complete);
    } else {
        out.push(fragment);
        assert(text_lines(s@) =~= complete.push(sp.1));
    }
    out
}

// ---------------------------------------------------------------------
// Where to resume reading
// ---------------------------------------------------------------------

/// The stored state no longer matches the file: another path, a file that
/// shrank below the imported offset, or a modification time that went back.
pub open spec fn must_reset(state: TranscriptSyncState, path: Seq<char>, file_size: int, file_mtime: int) -> bool {
    ||| state.transcript_path@ != path
    ||| file_size < state.imported_offset_bytes
    ||| (state.file_mtime_ms > 0 && file_mtime > 0 && file_mtime < state.file_mtime_ms)
}

/// The offset kept from the stored state: the imported offset (never
/// negative), or zero when the state must be reset.
pub open spec fn resume_offset(existing: Option<TranscriptSyncState>, path: Seq<char>, file_size: int, file_mtime: int) -> int {
    match existing {
        Some(st) => if must_reset(st, path, file_size, file_mtime) {
            0
        } else if st.imported_offset_bytes > 0 {
            st.imported_offset_bytes as int
        } else {
            0
        },
        None => 0,
    }
}

/// The offset at which reading resumes: the kept offset, or zero when it
/// lies beyond the end of the file.
pub open spec fn plan_offset(existing: Option<TranscriptSyncState>, path: Seq<char>, file_size: int, file_mtime: int) -> int {
    let base = resume_offset(existing, path, file_size, file_mtime);
    if base > file_size { 0 } else { base }
}

/// Whether previously imported lines are discarded.
pub open spec fn plan_reset(existing: Option<TranscriptSyncState>, path: Seq<char>, file_size: int, file_mtime: int) -> bool {
    ||| (existing matches Some(st) && must_reset(st, path, file_size, file_mtime))
    ||| resume_offset(existing, path, file_size, file_mtime) > file_size
}

/// The fragment that the next chunk continues.
pub open spec fn plan_pending(existing: Option<TranscriptSyncState>, path: Seq<char>, file_size: int, file_mtime: int) -> Seq<char> {
    if plan_reset(existing, path, file_size, file_mtime) {
        Seq::empty()
    } else {
        match existing {
            Some(st) => st.pending_fragment@,
            None => Seq::empty(),
        }
    }
}

/// Law: a plan that discards the imported lines starts over: it reads from
/// the start of the file and carries no fragment of the old content. A plan
/// that keeps them resumes at the imported offset with the stored fragment.
pub proof fn lemma_plan_reset_starts_over(existing: Option<TranscriptSyncState>, path: Seq<char>, file_size: int, file_mtime: int)
    ensures
        plan_reset(existing, path, file_size, file_mtime) ==> {
            &&& plan_offset(existing, path, file_size, file_mtime) == 0
            &&& plan_pending(existing, path, file_size, file_mtime) == Seq::<char>::empty()
        },
        !plan_reset(existing, path, file_size, file_mtime) ==> match existing {
            Some(st) => {
                &&& plan_offset(existing, path, file_size, file_mtime) == if st.imported_offset_bytes > 0 { st.imported_offset_bytes as int } else { 0 }
                &&& plan_pending(existing, path, file_size, file_mtime) == st.pending_fragment@
            },
            None => plan_offset(existing, path, file_size, file_mtime) == 0
                && plan_pending(existing, path, file_size, file_mtime) == Seq::<char>::empty(),
        },
{
}

/// Law: the stored state is dropped when the session now names another
/// file, when the file shrank below what was imported, or when its
/// modification time went back; and then the new file is read from its
/// start with no leftover fragment. Nothing else discards imported lines
/// unless the stored offset lies beyond the end of the file.
pub proof fn lemma_plan_resets_on_change(st: TranscriptSyncState, path: Seq<char>, file_size: int, file_mtime: int)
    ensures
        (st.transcript_path@ != path || file_size < st.imported_offset_bytes
            || (st.file_mtime_ms > 0 && file_mtime > 0 && file_mtime < st.file_mtime_ms)) ==> {
            &&& plan_reset(Some(st), path, file_size, file_mtime)
            &&& plan_offset(Some(st), path, file_size, file_mtime) == 0
            &&& plan_pending(Some(st), path, file_size, file_mtime).len() == 0
        },
        (st.transcript_path@ == path && 0 <= st.imported_offset_bytes <= file_size
            && !(st.file_mtime_ms > 0 && file_mtime > 0 && file_mtime < st.file_mtime_ms)) ==> {
            &&& !plan_reset(Some(st), path, file_size, file_mtime)
            &&& plan_offset(Some(st), path, file_size, file_mtime) == st.imported_offset_bytes
            &&& plan_pending(Some(st), path, file_size, file_mtime) == st.pending_fragment@
        },
{
}

/// Decides where the next read of `transcript_path` starts, given what was
/// imported before and the file's current size and modification time.
pub fn plan_transcript_read(
    transcript_path: &str,
    existing_state: Option<&TranscriptSyncState>,
    file_size_bytes: i64,
    file_mtime_ms: i64,
) -> (plan: TranscriptReadPlan)
    ensures
        plan.offset == plan_offset(opt_state(existing_state), transcript_path@, file_size_bytes as int, file_mtime_ms as int),
        plan.reset_content == plan_reset(opt_state(existing_state), transcript_path@, file_size_bytes as int, file_mtime_ms as int),
        plan.pending_fragment@ == plan_pending(opt_state(existing_state), transcript_path@, file_size_bytes as int, file_mtime_ms as int),
        0 <= plan.offset,
        plan.offset <= file_size_bytes || plan.offset == 0,
        plan.reset_content ==> plan.offset == 0 && plan.pending_fragment@.len() == 0,
{
    let mut offset: i64 = match existing_state {
        Some(state) => if state.imported_offset_bytes > 0 { state.imported_offset_bytes } else { 0 },
        None => 0,
    };
    let mut pending_fragment: String = match existing_state {
        Some(state) => state.pending_fragment.clone(),
        None => String::new(),
    };
    let mut reset_content = false;
    if let Some(state) = existing_state {
        let same_path = {
            let a = chars_of(state.transcript_path.as_str());
            let b = chars_of(transcript_path);
            crate::json::slices_equal(&a, &b)
        };
        if !same_path
            || file_size_bytes < state.imported_offset_bytes
            || (state.file_mtime_ms > 0 && file_mtime_ms > 0 && file_mtime_ms < state.file_mtime_ms)
        {
            offset = 0;
            pending_fragment = String::new();
            reset_content = true;
        }
    }
    if offset > file_size_bytes {
        offset = 0;
        pending_fragment = String::new();
        reset_content = true;
    }
    TranscriptReadPlan { offset, pending_fragment, reset_content }
}

/// The state, read through an optional reference.
pub open spec fn opt_state(s: Option<&TranscriptSyncState>) -> Option<TranscriptSyncState> {
    match s {
        Some(x) => Some(*x),
        None => None,
    }
}

/// `String::from_utf8_lossy`: the text of `bytes`, each invalid sequence
/// replaced by U+FFFD.
pub uninterp spec fn utf8_lossy(bytes: Seq<u8>) -> Seq<char>;

/// `String::from_utf8_lossy(bytes).to_string()`.
#[verifier::external_body]
pub(crate) fn utf8_lossy_string(bytes: &[u8]) -> (s: String)
    ensures
        s@ == utf8_lossy(bytes@),
{
    String::from_utf8_lossy(bytes).to_string()
}

/// The result of reading `chunk` (the bytes after `plan.offset`, at most
/// [`TRANSCRIPT_SYNC_MAX_BYTES`] of them): its complete lines, the new
/// fragment, and the offset after it.
pub fn finish_transcript_read(
    plan: TranscriptReadPlan,
    chunk: &[u8],
    file_mtime_ms: i64,
    file_size_bytes: i64,
) -> (r: TranscriptReadResult)
    requires
        0 <= plan.offset,
        chunk@.len() <= TRANSCRIPT_SYNC_MAX_BYTES,
        plan.offset + chunk@.len() <= i64::MAX,
    ensures
        r.lines@.len() == split_lines(plan.pending_fragment@ + utf8_lossy(chunk@)).0.len(),
        forall|i: int| 0 <= i < r.lines@.len() ==> #[trigger] r.lines@[i]@
            == split_lines(plan.pending_fragment@ + utf8_lossy(chunk@)).0[i],
        r.pending_fragment@ == split_lines(plan.pending_fragment@ + utf8_lossy(chunk@)).1,
        r.next_offset_bytes == plan.offset + chunk@.len(),
        r.file_mtime_ms == file_mtime_ms,
        r.file_size_bytes == file_size_bytes,
        r.reset_content == plan.reset_content,
{
    let text = utf8_lossy_string(chunk);
    let (lines, pending) = split_transcript_lines(plan.pending_fragment.as_str(), text.as_str());
    let n = chunk.len() as i64;
    TranscriptReadResult {
        lines,
        pending_fragment: pending,
        next_offset_bytes: plan.offset + n,
        file_mtime_ms,
        file_size_bytes,
        reset_content: plan.reset_content,
    }
}

// ---------------------------------------------------------------------
// Which transcript paths may be read
// ---------------------------------------------------------------------

/// `payload.stdin_json.transcript_path`, when it is a string that is not blank.
pub open spec fn transcript_path_field(payload: JsonModel) -> Option<Seq<char>> {
    match json_as_str(json_get_opt(json_get(payload, "stdin_json"@), "transcript_path"@)) {
        Some(p) => if is_blank(p) { None } else { Some(p) },
        None => None,
    }
}

/// The transcript path an event payload names, if it names one.
pub fn transcript_path_field_exec(payload: &JsonValue) -> (r: Option<String>)
    ensures
        r matches Some(p) ==> transcript_path_field(payload@) == Some(p@),
        r is None ==> transcript_path_field(payload@) is None,
{
    let stdin_json = get(payload, "stdin_json");
    let raw = as_str(get_opt(stdin_json, "transcript_path"));
    match raw {
        Some(p) => if is_blank_str(p.as_str()) { None } else { Some(p.clone()) },
        None => None,
    }
}

/// The path holds a `..` component.
pub open spec fn has_parent_dir(s: Seq<char>) -> bool {
    exists|i: int| #![trigger s.subrange(i, i + 2)]
        0 <= i && i + 2 <= s.len() && s.subrange(i, i + 2) == ".."@
        && (i == 0 || s[i - 1] == '/') && (i + 2 == s.len() || s[i + 2] == '/')
}

/// The text after the last `/` (all of `s` when it holds none).
pub open spec fn last_segment(s: Seq<char>) -> Seq<char>
    decreases s.len(),
{
    if s.len() == 0 || s.last() == '/' {
        Seq::empty()
    } else {
        last_segment(s.drop_last()).push(s.last())
    }
}

/// `Path::file_name` on a Unix path: the last component, ignoring trailing
/// `/` and `/.`; none for a root, a `.` or a `..`.
pub open spec fn file_name(s: Seq<char>) -> Option<Seq<char>>
    decreases s.len(),
{
    if s.len() > 0 && s.last() == '/' {
        file_name(s.drop_last())
    } else if s.len() >= 2 && s.last() == '.' && s[s.len() - 2] == '/' {
        file_name(s.drop_last())
    } else if s.len() == 0 || s == "."@ {
        None
    } else if last_segment(s) == ".."@ {
        None
    } else {
        Some(last_segment(s))
    }
}

/// `Path::extension` of a file name: the text after its last `.`, when that
/// dot is not the name's first character.
pub open spec fn extension(name: Seq<char>) -> Option<Seq<char>>
    decreases name.len(),
{
    if name.len() == 0 {
        None
    } else if name.last() == '.' {
        if name.len() > 1 { Some(Seq::empty()) } else { None }
    } else {
        match extension(name.drop_last()) {
            Some(e) => Some(e.push(name.last())),
            None => None,
        }
    }
}

/// The path names a `.jsonl` file.
pub open spec fn is_jsonl_path(s: Seq<char>) -> bool {
    file_name(s) matches Some(n) && extension(n) == Some("jsonl"@)
}

/// `Path::starts_with`: the components of `base` are the first components of
/// `path`, as the platform the crate is built for splits them.
pub uninterp spec fn path_starts_with(path: Seq<char>, base: Seq<char>) -> bool;

/// `Path::new(path).starts_with(base)`.
#[verifier::external_body]
pub(crate) fn path_starts_with_exec(path: &str, base: &str) -> (r: bool)
    ensures
        r == path_starts_with(path@, base@),
{
    std::path::Path::new(path).starts_with(base)
}

/// Which transcript path is read for a raw path: none when it climbs with
/// `..`, is not a `.jsonl` file, or lies outside the home directory; else
/// its canonical form when it has one, the raw path otherwise.
pub open spec fn validated_transcript_path(raw: Seq<char>, home: Option<Seq<char>>, canonical: Option<Seq<char>>) -> Option<Seq<char>> {
    if has_parent_dir(raw) {
        None
    } else if !is_jsonl_path(raw) {
        None
    } else if canonical is Some {
        if home matches Some(h) && !path_starts_with(canonical->0, h) { None } else { canonical }
    } else if home matches Some(h) && !path_starts_with(raw, h) {
        None
    } else {
        Some(raw)
    }
}

pub fn has_parent_dir_exec(s: &[char]) -> (r: bool)
    ensures
        r == has_parent_dir(s@),
{
    let n = s.len();
    if n < 2 {
        return false;
    }
    let mut i: usize = 0;
    while i < n - 1
        invariant
            n == s@.len(),
            n >= 2,
            i <= n - 1,
            forall|k: int| #![trigger s@.subrange(k, k + 2)] 0 <= k < i ==> !(
                k + 2 <= n && s@.subrange(k, k + 2) == ".."@
                && (k == 0 || s@[k - 1] == '/') && (k + 2 == n || s@[k + 2] == '/')),
        decreases n - i,
    {
        proof { reveal_strlit(".."); }
        let here = s[i] == '.' && s[i + 1] == '.' && (i == 0 || s[i - 1] == '/') && (i + 2 == n || s[i + 2] == '/');
        if here {
            assert(s@.subrange(i as int, i + 2) =~= ".."@);
            return true;
        }
        assert(s@.subrange(i as int, i + 2)[0] == s@[i as int]);
        assert(s@.subrange(i as int, i + 2)[1] == s@[i + 1]);
        i = i + 1;
    }
    false
}

/// The text after the last `/` of `t`, by index.
pub fn last_segment_exec(t: &[char]) -> (r: Vec<char>)
    ensures
        r@ == last_segment(t@),
{
    let end = t.len();
    let mut j: usize = end;
    assert(t@.take(end as int) =~= t@);
    while j > 0 && t[j - 1] != '/'
        invariant
            j <= end == t@.len(),
            last_segment(t@) == last_segment(t@.take(j as int)) + t@.subrange(j as int, end as int),
        decreases j,
    {
        let ghost pre = t@.take(j as int);
        assert(pre.drop_last() =~= t@.take(j - 1));
        assert(pre.last() == t@[j - 1]);
        assert(last_segment(pre) == last_segment(t@.take(j - 1)).push(t@[j - 1]));
        assert(last_segment(t@.take(j - 1)).push(t@[j - 1]) + t@.subrange(j as int, end as int)
            =~= last_segment(t@.take(j - 1)) + t@.subrange(j - 1, end as int));
        j = j - 1;
    }
    assert(last_segment(t@.take(j as int)) =~= Seq::<char>::empty());
    let mut r: Vec<char> = Vec::new();
    let mut k: usize = j;
    while k < end
        invariant
            j <= k <= end == t@.len(),
            r@ == t@.subrange(j as int, k as int),
        decreases end - k,
    {
        r.push(t[k]);
        k = k + 1;
        assert(r@ =~= t@.subrange(j as int, k as int));
    }
    assert(Seq::<char>::empty() + t@.subrange(j as int, end as int) =~= t@.subrange(j as int, end as int));
    r
}

/// `Path::new(s).file_name()`.
pub fn file_name_exec(s: &[char]) -> (r: Option<Vec<char>>)
    ensures
        r matches Some(n) ==> file_name(s@) == Some(n@),
        r is None ==> file_name(s@) is None,
{
    let mut end: usize = s.len();
    assert(s@.take(end as int) =~= s@);
    while (end > 0 && s[end - 1] == '/') || (end >= 2 && s[end - 1] == '.' && s[end - 2] == '/')
        invariant
            end <= s@.len(),
            file_name(s@) == file_name(s@.take(end as int)),
        decreases end,
    {
        let ghost pre = s@.take(end as int);
        assert(pre.drop_last() =~= s@.take(end - 1));
        assert(pre.last() == s@[end - 1]);
        if end >= 2 {
            assert(pre[pre.len() - 2] == s@[end - 2]);
        }
        end = end - 1;
    }
    let mut t: Vec<char> = Vec::new();
    let mut k: usize = 0;
    while k < end
        invariant
            k <= end <= s@.len(),
            t@ == s@.take(k as int),
        decreases end - k,
    {
        t.push(s[k]);
        k = k + 1;
        assert(t@ =~= s@.take(k as int));
    }
    proof { reveal_strlit("."); reveal_strlit(".."); }
    if t.len() > 0 {
        assert(t@.last() == s@[end - 1]);
    }
    if t.len() >= 2 {
        assert(t@[t@.len() - 2] == s@[end - 2]);
    }
    if t.len() == 0 || (t.len() == 1 && t[0] == '.') {
        if t.len() == 1 {
            assert(t@ =~= "."@);
        }
        return None;
    }
    assert(t@ != "."@) by {
        if t@ == "."@ {
            assert(t@[0] == '.');
        }
    }
    let seg = last_segment_exec(&t);
    if seg.len() == 2 && seg[0] == '.' && seg[1] == '.' {
        assert(seg@ =~= ".."@);
        return None;
    }
    assert(seg@ != ".."@) by {
        if seg@ == ".."@ {
            assert(seg@[0] == '.' && seg@[1] == '.');
        }
    }
    Some(seg)
}

/// `Path::new(name).extension()` of a file name.
pub fn extension_exec(name: &[char]) -> (r: Option<Vec<char>>)
    ensures
        r matches Some(e) ==> extension(name@) == Some(e@),
        r is None ==> extension(name@) is None,
{
    let len = name.len();
    let mut k: usize = len;
    assert(name@.take(len as int) =~= name@);
    assert(name@.subrange(len as int, len as int) =~= Seq::<char>::empty());
    while k > 0 && name[k - 1] != '.'
        invariant
            k <= len == name@.len(),
            match extension(name@.take(k as int)) {
                Some(e) => extension(name@) == Some(e + name@.subrange(k as int, len as int)),
                None => extension(name@) is None,
            },
        decreases k,
    {
        let ghost pre = name@.take(k as int);
        assert(pre.drop_last() =~= name@.take(k - 1));
        assert(pre.last() == name@[k - 1]);
        proof {
            match extension(name@.take(k - 1)) {
                Some(e) => {
                    assert(e.push(name@[k - 1]) + name@.subrange(k as int, len as int)
                        =~= e + name@.subrange(k - 1, len as int));
                }
                None => {}
            }
        }
        k = k - 1;
    }
    if k == 0 {
        return None;
    }
    let ghost pre = name@.take(k as int);
    assert(pre.last() == name@[k - 1]);
    if k == 1 {
        return None;
    }
    assert(extension(pre) == Some(Seq::<char>::empty()));
    let mut e: Vec<char> = Vec::new();
    let mut j: usize = k;
    while j < len
        invariant
            k <= j <= len == name@.len(),
            e@ == name@.subrange(k as int, j as int),
        decreases len - j,
    {
        e.push(name[j]);
        j = j + 1;
        assert(e@ =~= name@.subrange(k as int, j as int));
    }
    assert(Seq::<char>::empty() + name@.subrange(k as int, len as int) =~= e@);
    Some(e)
}

/// The path names a `.jsonl` file.
pub fn is_jsonl_path_exec(s: &[char]) -> (r: bool)
    ensures
        r == is_jsonl_path(s@),
{
    match file_name_exec(s) {
        Some(n) => match extension_exec(&n) {
            Some(e) => {
                proof { reveal_strlit("jsonl"); }
                let ok = e.len() == 5 && e[0] == 'j' && e[1] == 's' && e[2] == 'o' && e[3] == 'n' && e[4] == 'l';
                if ok {
                    assert(e@ =~= "jsonl"@);
                } else {
                    assert(e@ != "jsonl"@) by {
                        if e@ == "jsonl"@ {
                            assert(e@[0] == 'j' && e@[1] == 's' && e@[2] == 'o' && e@[3] == 'n' && e@[4] == 'l');
                        }
                    }
                }
                ok
            }
            None => false,
        },
        None => false,
    }
}

/// Checks a transcript path before it is read: `home` is the (canonical)
/// home directory, `canonical` the canonical form of `raw` when the file
/// exists. See [`validated_transcript_path`].
pub fn validate_transcript_path(raw: &str, home: Option<&str>, canonical: Option<String>) -> (r: Option<String>)
    ensures
        opt_view(r) == validated_transcript_path(raw@, opt_str_view(home), opt_view(canonical)),
{
    let v = chars_of(raw);
    if has_parent_dir_exec(&v) {
        return None;
    }
    if !is_jsonl_path_exec(&v) {
        return None;
    }
    match canonical {
        Some(c) => {
            if let Some(h) = home {
                if !path_starts_with_exec(c.as_str(), h) {
                    return None;
                }
            }
            Some(c)
        }
        None => {
            if let Some(h) = home {
                if !path_starts_with_exec(raw, h) {
                    return None;
                }
            }
            Some(raw.to_string())
        }
    }
}

/// The view of an optional string.
pub open spec fn opt_view(s: Option<String>) -> Option<Seq<char>> {
    match s {
        Some(x) => Some(x@),
        None => None,
    }
}

/// The view of an optional string slice.
pub open spec fn opt_str_view(s: Option<&str>) -> Option<Seq<char>> {
    match s {
        Some(x) => Some(x@),
        None => None,
    }
}

// ---------------------------------------------------------------------
// Pages of stored lines
// ---------------------------------------------------------------------

/// One stored transcript line.
#[derive(Debug)]
pub struct TranscriptLineItem {
    pub line_no: i64,
    pub line_content: String,
}

/// A page of a transcript, oldest line first.
#[derive(Debug)]
pub struct TranscriptPage {
    pub items: Vec<TranscriptLineItem>,
    pub has_more: bool,
    pub next_before_line_no: Option<i64>,
    pub skipped_lines: u32,
}

/// The page size asked for, 200 by default, kept within 1..=500.
pub open spec fn transcript_page_size_spec(requested: Option<u32>) -> int {
    let p = match requested { Some(p) => p as int, None => 200 };
    if p < 1 { 1 } else if p > 500 { 500 } else { p }
}

pub fn transcript_page_size(requested: Option<u32>) -> (r: usize)
    ensures
        r == transcript_page_size_spec(requested),
        1 <= r <= 500,
{
    let p: u32 = match requested { Some(p) => p, None => 200 };
    if p < 1 { 1 } else if p > 500 { 500 } else { p as usize }
}

/// The view of a stored line.
pub open spec fn line_view(x: TranscriptLineItem) -> (int, Seq<char>) {
    (x.line_no as int, x.line_content@)
}

/// The views of stored lines.
pub open spec fn lines_view(v: Seq<TranscriptLineItem>) -> Seq<(int, Seq<char>)> {
    Seq::new(v.len(), |i: int| line_view(v[i]))
}

/// A line shown to the user: blank, or a JSON object once trimmed.
pub open spec fn is_displayable(content: Seq<char>) -> bool {
    is_blank(content) || json_text_is_object(trim(content))
}

/// The displayable lines, in order.
pub open spec fn displayable(s: Seq<(int, Seq<char>)>) -> Seq<(int, Seq<char>)>
    decreases s.len(),
{
    if s.len() == 0 {
        s
    } else if is_displayable(s.last().1) {
        displayable(s.drop_last()).push(s.last())
    } else {
        displayable(s.drop_last())
    }
}

/// The newest `page_size` lines of `rows_desc` (newest first), oldest first.
pub open spec fn page_window(rows_desc: Seq<(int, Seq<char>)>, page_size: int) -> Seq<(int, Seq<char>)> {
    let m = if rows_desc.len() > page_size { page_size } else { rows_desc.len() as int };
    rows_desc.take(m).reverse()
}

/// The lines of a page: the displayable lines of the window, or the whole
/// window when none of its lines is displayable.
pub open spec fn page_items(rows_desc: Seq<(int, Seq<char>)>, page_size: int) -> Seq<(int, Seq<char>)> {
    let w = page_window(rows_desc, page_size);
    let v = displayable(w);
    if v.len() == 0 && w.len() > 0 { w } else { v }
}

pub proof fn lemma_displayable_len(s: Seq<(int, Seq<char>)>)
    ensures
        displayable(s).len() <= s.len(),
    decreases s.len(),
{
    if s.len() > 0 {
        lemma_displayable_len(s.drop_last());
    }
}

/// Assembles a page from the stored lines fetched newest first (at most
/// `page_size + 1` of them, so that one more tells that older lines remain).
pub fn transcript_page(rows_desc: &Vec<TranscriptLineItem>, page_size: usize) -> (page: TranscriptPage)
    requires
        1 <= page_size <= 500,
        rows_desc@.len() <= page_size + 1,
    ensures
        page.has_more == (rows_desc@.len() > page_size),
        lines_view(page.items@) == page_items(lines_view(rows_desc@), page_size as int),
        page.next_before_line_no == (if rows_desc@.len() > page_size {
            Some(rows_desc@[page_size - 1].line_no)
        } else {
            None::<i64>
        }),
        page.skipped_lines == page_window(lines_view(rows_desc@), page_size as int).len()
            - displayable(page_window(lines_view(rows_desc@), page_size as int)).len(),
{
    let ghost all = lines_view(rows_desc@);
    let has_more = rows_desc.len() > page_size;
    let m: usize = if has_more { page_size } else { rows_desc.len() };
    let ghost w = page_window(all, page_size as int);
    assert(w.len() == m);
    let mut window: Vec<TranscriptLineItem> = Vec::new();
    let mut i: usize = m;
    while i > 0
        invariant
            i <= m <= rows_desc@.len(),
            m == w.len(),
            all == lines_view(rows_desc@),
            w == page_window(all, page_size as int),
            m == (if rows_desc@.len() > page_size { page_size as int } else { rows_desc@.len() as int }),
            lines_view(window@) == w.take(m - i),
        decreases i,
    {
        i = i - 1;
        let row = &rows_desc[i];
        let ghost prev = window@;
        window.push(TranscriptLineItem { line_no: row.line_no, line_content: row.line_content.clone() });
        assert(w[m - 1 - i] == all[i as int]);
        assert(all[i as int] == line_view(rows_desc@[i as int]));
        assert forall|j: int| 0 <= j < prev.len() implies window@[j] == prev[j] by {}
        assert(lines_view(window@).drop_last() =~= lines_view(prev));
        assert(lines_view(window@) =~= w.take(m - i));
    }
    assert(lines_view(window@) =~= w);
    let next_before_line_no = if has_more {
        assert(window@[0].line_no == rows_desc@[page_size - 1].line_no) by {
            assert(w[0] == all[m - 1]);
            assert(lines_view(window@)[0] == w[0]);
        }
        Some(window[0].line_no)
    } else {
        None
    };
    let mut valid: Vec<TranscriptLineItem> = Vec::new();
    let mut k: usize = 0;
    while k < window.len()
        invariant
            k <= window@.len() == w.len(),
            lines_view(window@) == w,
            lines_view(valid@) == displayable(w.take(k as int)),
            valid@.len() <= k,
        decreases window@.len() - k,
    {
        let item = &window[k];
        assert(w.take(k + 1).drop_last() =~= w.take(k as int));
        assert(w.take(k + 1).last() == w[k as int]);
        assert(w[k as int] == line_view(*item));
        let blank = is_blank_str(item.line_content.as_str());
        let keep = if blank {
            true
        } else {
            let t = trim_chars(&chars_of(item.line_content.as_str()));
            let ts = string_from_chars(&t);
            json_text_is_object_exec(ts.as_str())
        };
        if keep {
            valid.push(TranscriptLineItem { line_no: item.line_no, line_content: item.line_content.clone() });
            assert(lines_view(valid@) =~= displayable(w.take(k + 1)));
        }
        k = k + 1;
    }
    assert(w.take(w.len() as int) =~= w);
    proof { lemma_displayable_len(w); }
    let skipped = window.len() - valid.len();
    let items = if valid.len() == 0 && skipped > 0 { window } else { valid };
    TranscriptPage { items, has_more, next_before_line_no, skipped_lines: skipped as u32 }
}

} // verus!
