//! Log events streamed from child processes: the cleaning of each output
//! line (carriage returns, ANSI escape sequences, control characters), the
//! events built for them, and the result of a finished command.
use vstd::prelude::*;
use crate::text::{chars_of, push_chars, push_str, push_decimal, decimal, string_from_chars};

verus! {

broadcast use vstd::string::group_string_axioms;

/// One log line shown to the user while a setup step runs.
#[derive(Debug)]
pub struct LogEvent {
    pub step: String,
    pub level: String,
    pub message: String,
    pub raw: Option<String>,
    pub timestamp: u64,
}

/// What a finished command printed and how it exited.
#[derive(Debug)]
pub struct CommandRunResult {
    pub success: bool,
    pub exit_code: Option<i32>,
    pub stdout: String,
    pub stderr: String,
}

// ---------------------------------------------------------------------
// Line cleaning: specification
// ---------------------------------------------------------------------

/// `char::is_control`: the Unicode `Cc` category.
pub open spec fn is_control(c: char) -> bool {
    (c as u32) <= 0x1F || (0x7F <= (c as u32) && (c as u32) <= 0x9F)
}

/// A character kept by the cleaner when it stands outside an escape sequence.
pub open spec fn is_kept(c: char) -> bool {
    c == '\n' || c == '\t' || !is_control(c)
}

/// The escape character that starts ANSI sequences.
pub open spec fn esc() -> char {
    '\u{1b}'
}

/// A final byte of a CSI sequence (`'@'..='~'`).
pub open spec fn is_csi_final(c: char) -> bool {
    0x40 <= (c as u32) && (c as u32) <= 0x7E
}

/// What follows a CSI sequence's parameters: the input after its final
/// byte, or nothing when the sequence is not terminated.
pub open spec fn skip_csi(s: Seq<char>) -> Seq<char>
    decreases s.len(),
{
    if s.len() == 0 {
        s
    } else if is_csi_final(s[0]) {
        s.drop_first()
    } else {
        skip_csi(s.drop_first())
    }
}

/// What follows an OSC sequence's text: the input after its BEL or its
/// `ESC \` terminator, or nothing when the sequence is not terminated.
pub open spec fn skip_osc(s: Seq<char>) -> Seq<char>
    decreases s.len(),
{
    if s.len() == 0 {
        s
    } else if s[0] == '\u{07}' {
        s.drop_first()
    } else if s[0] == esc() && s.len() > 1 && s[1] == '\\' {
        s.subrange(2, s.len() as int)
    } else {
        skip_osc(s.drop_first())
    }
}

pub proof fn lemma_skip_csi_len(s: Seq<char>)
    ensures
        skip_csi(s).len() <= s.len(),
    decreases s.len(),
{
    if s.len() > 0 && !is_csi_final(s[0]) {
        lemma_skip_csi_len(s.drop_first());
    }
}

pub proof fn lemma_skip_osc_len(s: Seq<char>)
    ensures
        skip_osc(s).len() <= s.len(),
    decreases s.len(),
{
    if s.len() > 0 && s[0] != '\u{07}' && !(s[0] == esc() && s.len() > 1 && s[1] == '\\') {
        lemma_skip_osc_len(s.drop_first());
    }
}

/// The text with ANSI CSI (`ESC [ ... final`) and OSC (`ESC ] ... BEL` or
/// `ESC ] ... ESC \`) sequences removed, a lone `ESC` dropped, and every
/// other control character but newline and tab dropped.
pub open spec fn strip_ansi(s: Seq<char>) -> Seq<char>
    decreases s.len(),
{
    if s.len() == 0 {
        s
    } else if s[0] == esc() {
        if s.len() > 1 && s[1] == '[' {
            proof { lemma_skip_csi_len(s.subrange(2, s.len() as int)); }
            strip_ansi(skip_csi(s.subrange(2, s.len() as int)))
        } else if s.len() > 1 && s[1] == ']' {
            proof { lemma_skip_osc_len(s.subrange(2, s.len() as int)); }
            strip_ansi(skip_osc(s.subrange(2, s.len() as int)))
        } else {
            strip_ansi(s.drop_first())
        }
    } else if is_kept(s[0]) {
        seq![s[0]] + strip_ansi(s.drop_first())
    } else {
        strip_ansi(s.drop_first())
    }
}

/// Carriage-return handling of a terminal: reading left to right, `'\r'`
/// discards what the current line held so far and `'\n'` ends the line.
/// The first component holds the finished lines, the second the current one.
pub open spec fn carriage_state(s: Seq<char>) -> (Seq<char>, Seq<char>)
    decreases s.len(),
{
    if s.len() == 0 {
        (Seq::empty(), Seq::empty())
    } else {
        let (done, cur) = carriage_state(s.drop_last());
        let c = s.last();
        if c == '\n' {
            (done + cur.push('\n'), Seq::empty())
        } else if c == '\r' {
            (done, Seq::empty())
        } else {
            (done, cur.push(c))
        }
    }
}

/// Each newline-separated line of `s` reduced to what follows its last `'\r'`.
pub open spec fn drop_carriage(s: Seq<char>) -> Seq<char> {
    carriage_state(s).0 + carriage_state(s).1
}

/// The message shown for a raw output line.
pub open spec fn clean_stream_line(s: Seq<char>) -> Seq<char> {
    strip_ansi(drop_carriage(s))
}

// ---------------------------------------------------------------------
// Laws of the cleaner
// ---------------------------------------------------------------------

/// Law: the cleaned text holds no escape and no control character but
/// newline and tab.
pub proof fn lemma_strip_ansi_output_kept(s: Seq<char>)
    ensures
        forall|i: int| 0 <= i < strip_ansi(s).len() ==> is_kept(#[trigger] strip_ansi(s)[i]),
    decreases s.len(),
{
    if s.len() == 0 {
    } else if s[0] == esc() {
        if s.len() > 1 && s[1] == '[' {
            lemma_skip_csi_len(s.subrange(2, s.len() as int));
            lemma_strip_ansi_output_kept(skip_csi(s.subrange(2, s.len() as int)));
            assert(strip_ansi(s) == strip_ansi(skip_csi(s.subrange(2, s.len() as int))));
        } else if s.len() > 1 && s[1] == ']' {
            lemma_skip_osc_len(s.subrange(2, s.len() as int));
            lemma_strip_ansi_output_kept(skip_osc(s.subrange(2, s.len() as int)));
            assert(strip_ansi(s) == strip_ansi(skip_osc(s.subrange(2, s.len() as int))));
        } else {
            lemma_strip_ansi_output_kept(s.drop_first());
            assert(strip_ansi(s) == strip_ansi(s.drop_first()));
        }
    } else if !is_kept(s[0]) {
        lemma_strip_ansi_output_kept(s.drop_first());
        assert(strip_ansi(s) == strip_ansi(s.drop_first()));
    } else {
        lemma_strip_ansi_output_kept(s.drop_first());
        if is_kept(s[0]) {
            let r = strip_ansi(s.drop_first());
            assert(strip_ansi(s) == seq![s[0]] + r);
            assert forall|i: int| 0 <= i < strip_ansi(s).len() implies is_kept(#[trigger] strip_ansi(s)[i]) by {
                if i > 0 {
                    assert(strip_ansi(s)[i] == r[i - 1]);
                }
            }
        }
    }
}

/// Text made only of kept characters passes through the cleaner unchanged.
pub proof fn lemma_strip_ansi_identity(s: Seq<char>)
    requires
        forall|i: int| 0 <= i < s.len() ==> is_kept(#[trigger] s[i]),
    ensures
        strip_ansi(s) == s,
    decreases s.len(),
{
    if s.len() > 0 {
        assert(is_kept(s[0]));
        assert forall|i: int| 0 <= i < s.drop_first().len() implies is_kept(#[trigger] s.drop_first()[i]) by {
            assert(s.drop_first()[i] == s[i + 1]);
        }
        lemma_strip_ansi_identity(s.drop_first());
        assert(seq![s[0]] + s.drop_first() =~= s);
    }
}

/// Law: cleaning twice is cleaning once.
pub proof fn lemma_strip_ansi_idempotent(s: Seq<char>)
    ensures
        strip_ansi(strip_ansi(s)) == strip_ansi(s),
{
    lemma_strip_ansi_output_kept(s);
    lemma_strip_ansi_identity(strip_ansi(s));
}

/// `a` is a subsequence of `b`: its characters appear in `b` in order,
/// possibly with others between them.
pub open spec fn is_subsequence(a: Seq<char>, b: Seq<char>) -> bool
    decreases b.len(),
{
    if a.len() == 0 {
        true
    } else if b.len() == 0 {
        false
    } else {
        (a[0] == b[0] && is_subsequence(a.drop_first(), b.drop_first())) || is_subsequence(a, b.drop_first())
    }
}

proof fn lemma_subsequence_of_suffix(a: Seq<char>, b: Seq<char>, m: int)
    requires
        0 <= m <= b.len(),
        is_subsequence(a, b.skip(m)),
    ensures
        is_subsequence(a, b),
    decreases m,
{
    if m > 0 {
        let t = b.skip(m - 1);
        assert(t.drop_first() =~= b.skip(m));
        if a.len() > 0 {
            assert(is_subsequence(a, t));
        }
        lemma_subsequence_of_suffix(a, b, m - 1);
    } else {
        assert(b.skip(0) =~= b);
    }
}

proof fn lemma_skip_csi_suffix(t: Seq<char>)
    ensures
        skip_csi(t) =~= t.skip(t.len() - skip_csi(t).len()),
    decreases t.len(),
{
    lemma_skip_csi_len(t);
    if t.len() > 0 && !is_csi_final(t[0]) {
        lemma_skip_csi_suffix(t.drop_first());
        lemma_skip_csi_len(t.drop_first());
    }
}

proof fn lemma_skip_osc_suffix(t: Seq<char>)
    ensures
        skip_osc(t) =~= t.skip(t.len() - skip_osc(t).len()),
    decreases t.len(),
{
    lemma_skip_osc_len(t);
    if t.len() > 0 && t[0] != '\u{07}' && !(t[0] == esc() && t.len() > 1 && t[1] == '\\') {
        lemma_skip_osc_suffix(t.drop_first());
        lemma_skip_osc_len(t.drop_first());
    }
}

/// Law: the cleaner only removes characters: its output is a subsequence of its input.
pub proof fn lemma_strip_ansi_subsequence(s: Seq<char>)
    ensures
        is_subsequence(strip_ansi(s), s),
    decreases s.len(),
{
    if s.len() == 0 {
    } else if s[0] == esc() && s.len() > 1 && (s[1] == '[' || s[1] == ']') {
        let t = s.subrange(2, s.len() as int);
        let u = if s[1] == '[' {
            lemma_skip_csi_suffix(t);
            lemma_skip_csi_len(t);
            skip_csi(t)
        } else {
            lemma_skip_osc_suffix(t);
            lemma_skip_osc_len(t);
            skip_osc(t)
        };
        assert(u.len() <= t.len());
        assert(u =~= t.skip(t.len() - u.len()));
        let m = s.len() - u.len();
        assert(m >= 2);
        assert(u =~= s.skip(m));
        lemma_strip_ansi_subsequence(u);
        assert(strip_ansi(s) == strip_ansi(u));
        lemma_subsequence_of_suffix(strip_ansi(s), s, m);
    } else if s[0] != esc() && is_kept(s[0]) {
        let r = s.drop_first();
        lemma_strip_ansi_subsequence(r);
        let a = strip_ansi(s);
        assert(a == seq![s[0]] + strip_ansi(r));
        assert(a.drop_first() =~= strip_ansi(r));
        assert(a[0] == s[0]);
    } else {
        let r = s.drop_first();
        lemma_strip_ansi_subsequence(r);
        assert(strip_ansi(s) == strip_ansi(r));
        assert(r =~= s.skip(1));
        lemma_subsequence_of_suffix(strip_ansi(s), s, 1);
    }
}

/// Law: a cleaned stream line holds no carriage return, no escape, and no
/// control character but newline and tab.
pub proof fn lemma_clean_stream_line_printable(s: Seq<char>)
    ensures
        forall|i: int| 0 <= i < clean_stream_line(s).len() ==> is_kept(#[trigger] clean_stream_line(s)[i]),
{
    lemma_strip_ansi_output_kept(drop_carriage(s));
}

// ---------------------------------------------------------------------
// Line cleaning: implementation
// ---------------------------------------------------------------------

pub fn is_control_char(c: char) -> (r: bool)
    ensures
        r == is_control(c),
{
    let u = c as u32;
    u <= 0x1F || (0x7F <= u && u <= 0x9F)
}

/// Strips ANSI escape sequences and control characters (but newline and tab).
pub fn strip_ansi_and_control(input: &str) -> (r: String)
    ensures
        r@ == strip_ansi(input@),
{
    let v = chars_of(input);
    let out = strip_ansi_chars(&v);
    string_from_chars(&out)
}

/// [`strip_ansi_and_control`] on characters.
pub fn strip_ansi_chars(s: &[char]) -> (out: Vec<char>)
    ensures
        out@ == strip_ansi(s@),
{
    let n = s.len();
    let mut out: Vec<char> = Vec::new();
    let mut i: usize = 0;
    assert(s@.subrange(0, n as int) =~= s@);
    while i < n
        invariant
            n == s@.len(),
            i <= n,
            strip_ansi(s@) == out@ + strip_ansi(s@.subrange(i as int, n as int)),
        decreases n - i,
    {
        let ghost rest = s@.subrange(i as int, n as int);
        let c = s[i];
        assert(rest[0] == c);
        assert(rest.drop_first() =~= s@.subrange(i + 1, n as int));
        if c == '\u{1b}' {
            if i + 1 < n && s[i + 1] == '[' {
                assert(rest[1] == s@[i + 1]);
                assert(rest.subrange(2, rest.len() as int) =~= s@.subrange(i + 2, n as int));
                let mut j: usize = i + 2;
                while j < n && !is_csi_final_char(s[j])
                    invariant
                        n == s@.len(),
                        i + 2 <= j <= n,
                        skip_csi(s@.subrange(i + 2, n as int)) == skip_csi(s@.subrange(j as int, n as int)),
                    decreases n - j,
                {
                    assert(s@.subrange(j as int, n as int).drop_first() =~= s@.subrange(j + 1, n as int));
                    j = j + 1;
                }
                if j < n {
                    assert(s@.subrange(j as int, n as int).drop_first() =~= s@.subrange(j + 1, n as int));
                    i = j + 1;
                } else {
                    i = n;
                }
            } else if i + 1 < n && s[i + 1] == ']' {
                assert(rest[1] == s@[i + 1]);
                assert(rest.subrange(2, rest.len() as int) =~= s@.subrange(i + 2, n as int));
                let mut j: usize = i + 2;
                let mut done = false;
                while !done && j < n
                    invariant
                        n == s@.len(),
                        i + 2 <= j <= n,
                        skip_osc(s@.subrange(i + 2, n as int)) == if done {
                            s@.subrange(j as int, n as int)
                        } else {
                            skip_osc(s@.subrange(j as int, n as int))
                        },
                    decreases n - j,
                {
                    let ghost sub = s@.subrange(j as int, n as int);
                    assert(sub[0] == s@[j as int]);
                    if s[j] == '\u{07}' {
                        assert(sub.drop_first() =~= s@.subrange(j + 1, n as int));
                        j = j + 1;
                        done = true;
                    } else if s[j] == '\u{1b}' && j + 1 < n && s[j + 1] == '\\' {
                        assert(sub[1] == s@[j + 1]);
                        assert(sub.subrange(2, sub.len() as int) =~= s@.subrange(j + 2, n as int));
                        j = j + 2;
                        done = true;
                    } else {
                        assert(sub.drop_first() =~= s@.subrange(j + 1, n as int));
                        j = j + 1;
                    }
                }
                if !done {
                    assert(s@.subrange(j as int, n as int).len() == 0);
                }
                i = j;
            } else {
                if i + 1 < n {
                    assert(rest[1] == s@[i + 1]);
                }
                i = i + 1;
            }
        } else {
            if c == '\n' || c == '\t' || !is_control_char(c) {
                let ghost old_out = out@;
                out.push(c);
                assert(strip_ansi(rest) == seq![c] + strip_ansi(s@.subrange(i + 1, n as int)));
                assert(old_out + (seq![c] + strip_ansi(s@.subrange(i + 1, n as int)))
                    =~= out@ + strip_ansi(s@.subrange(i + 1, n as int)));
            }
            i = i + 1;
        }
    }
    assert(s@.subrange(n as int, n as int).len() == 0);
    assert(out@ + Seq::<char>::empty() =~= out@);
    out
}

pub fn is_csi_final_char(c: char) -> (r: bool)
    ensures
        r == is_csi_final(c),
{
    let u = c as u32;
    0x40 <= u && u <= 0x7E
}

/// Each line reduced to what follows its last carriage return, then cleaned
/// of escape sequences and control characters.
pub fn sanitize_stream_line(input: &str) -> (r: String)
    ensures
        r@ == clean_stream_line(input@),
{
    let v = chars_of(input);
    let no_carriage = drop_carriage_chars(&v);
    let out = strip_ansi_chars(&no_carriage);
    string_from_chars(&out)
}

/// [`drop_carriage`] on characters.
pub fn drop_carriage_chars(s: &[char]) -> (r: Vec<char>)
    ensures
        r@ == drop_carriage(s@),
{
    let mut done: Vec<char> = Vec::new();
    let mut cur: Vec<char> = Vec::new();
    let mut i: usize = 0;
    while i < s.len()
        invariant
            i <= s.len(),
            carriage_state(s@.take(i as int)) == (done@, cur@),
        decreases s.len() - i,
    {
        let c = s[i];
        assert(s@.take(i + 1).drop_last() =~= s@.take(i as int));
        assert(s@.take(i + 1).last() == c);
        if c == '\n' {
            cur.push('\n');
            push_chars(&mut done, &cur);
            cur = Vec::new();
        } else if c == '\r' {
            cur = Vec::new();
        } else {
            cur.push(c);
        }
        i = i + 1;
        assert(cur@ =~= carriage_state(s@.take(i as int)).1);
        assert(done@ =~= carriage_state(s@.take(i as int)).0);
    }
    assert(s@.take(s.len() as int) =~= s@);
    push_chars(&mut done, &cur);
    done
}

// ---------------------------------------------------------------------
// Events and results
// ---------------------------------------------------------------------

/// The level of a streamed line: `error` for standard error, `info` otherwise.
pub open spec fn stream_level(is_stderr: bool) -> Seq<char> {
    if is_stderr { "error"@ } else { "info"@ }
}

/// The event shown for one line a command printed.
pub fn stream_log_event(step: &str, is_stderr: bool, line: String, timestamp: u64) -> (e: LogEvent)
    ensures
        e.step@ == step@,
        e.level@ == stream_level(is_stderr),
        e.message@ == clean_stream_line(line@),
        e.raw matches Some(r) && r@ == line@,
        e.timestamp == timestamp,
{
    let message = sanitize_stream_line(line.as_str());
    LogEvent {
        step: step.to_string(),
        level: if is_stderr { "error".to_string() } else { "info".to_string() },
        message,
        raw: Some(line),
        timestamp,
    }
}

/// Milliseconds since the Unix epoch, by the system clock.
#[verifier::external_body]
pub fn now_millis() -> u64 {
    std::time::SystemTime::now()
        .duration_since(std::time::UNIX_EPOCH)
        .unwrap_or_default()
        .as_millis() as u64
}

/// Builds the event for one output line, stamps it with the clock, and hands it to `emit_log`.
pub fn emit_stream_log<F: Fn(LogEvent)>(step: &str, is_stderr: bool, line: String, emit_log: &F)
    requires
        forall|e: LogEvent| #[trigger] emit_log.requires((e,)),
    ensures
        exists|e: LogEvent|
            #[trigger] emit_log.ensures((e,), ())
            && e.step@ == step@
            && e.level@ == stream_level(is_stderr)
            && e.message@ == clean_stream_line(line@)
            && (e.raw matches Some(r) && r@ == line@),
{
    let event = stream_log_event(step, is_stderr, line, now_millis());
    let ghost sent = event;
    emit_log(event);
    assert(emit_log.ensures((sent,), ()));
}

/// Joins strings with a separator, as `[String]::join` does.
pub open spec fn join(parts: Seq<Seq<char>>, sep: Seq<char>) -> Seq<char>
    decreases parts.len(),
{
    if parts.len() == 0 {
        Seq::empty()
    } else if parts.len() == 1 {
        parts[0]
    } else {
        join(parts.drop_last(), sep) + sep + parts.last()
    }
}

/// The views of a vector of strings.
pub open spec fn views(v: Seq<String>) -> Seq<Seq<char>> {
    Seq::new(v.len(), |i: int| v[i]@)
}

/// The views of a slice of string slices.
pub open spec fn str_views(v: Seq<&str>) -> Seq<Seq<char>> {
    Seq::new(v.len(), |i: int| v[i]@)
}

/// `[String]::join(sep)`.
pub fn join_strings(parts: &[String], sep: &str) -> (r: String)
    ensures
        r@ == join(views(parts@), sep@),
{
    let mut out: Vec<char> = Vec::new();
    let mut i: usize = 0;
    while i < parts.len()
        invariant
            i <= parts@.len(),
            out@ == join(views(parts@).take(i as int), sep@),
        decreases parts@.len() - i,
    {
        let ghost before = out@;
        assert(views(parts@).take(i + 1).drop_last() =~= views(parts@).take(i as int));
        assert(views(parts@).take(i + 1).last() == parts@[i as int]@);
        if i > 0 {
            push_str(&mut out, sep);
        }
        push_str(&mut out, parts[i].as_str());
        if i == 0 {
            assert(out@ =~= join(views(parts@).take(1), sep@));
        }
        i = i + 1;
    }
    assert(views(parts@).take(parts@.len() as int) =~= views(parts@));
    string_from_chars(&out)
}

/// `[&str]::join(sep)`.
pub fn join_strs(parts: &[&str], sep: &str) -> (r: String)
    ensures
        r@ == join(str_views(parts@), sep@),
{
    let mut out: Vec<char> = Vec::new();
    let mut i: usize = 0;
    while i < parts.len()
        invariant
            i <= parts@.len(),
            out@ == join(str_views(parts@).take(i as int), sep@),
        decreases parts@.len() - i,
    {
        assert(str_views(parts@).take(i + 1).drop_last() =~= str_views(parts@).take(i as int));
        assert(str_views(parts@).take(i + 1).last() == parts@[i as int]@);
        if i > 0 {
            push_str(&mut out, sep);
        }
        push_str(&mut out, parts[i]);
        if i == 0 {
            assert(out@ =~= join(str_views(parts@).take(1), sep@));
        }
        i = i + 1;
    }
    assert(str_views(parts@).take(parts@.len() as int) =~= str_views(parts@));
    string_from_chars(&out)
}

/// The command line announced before a command runs: the program, a space,
/// and the arguments separated by spaces.
pub open spec fn command_line_text(program: Seq<char>, args: Seq<Seq<char>>) -> Seq<char> {
    program + " "@ + join(args, " "@)
}

/// `format!("{} {}", program, args.join(" "))`.
pub fn command_line(program: &str, args: &[&str]) -> (r: String)
    ensures
        r@ == command_line_text(program@, str_views(args@)),
{
    let joined = join_strs(args, " ");
    let mut out: Vec<char> = Vec::new();
    push_str(&mut out, program);
    push_str(&mut out, " ");
    push_str(&mut out, joined.as_str());
    string_from_chars(&out)
}

/// The event that announces a command: message `执行命令: <command line>`,
/// the command line as raw text.
pub fn command_start_event(step: &str, level: &str, command_line: &str, timestamp: u64) -> (e: LogEvent)
    ensures
        e.step@ == step@,
        e.level@ == level@,
        e.message@ == "执行命令: "@ + command_line@,
        e.raw matches Some(r) && r@ == command_line@,
        e.timestamp == timestamp,
{
    let mut m: Vec<char> = Vec::new();
    push_str(&mut m, "执行命令: ");
    push_str(&mut m, command_line);
    LogEvent {
        step: step.to_string(),
        level: level.to_string(),
        message: string_from_chars(&m),
        raw: Some(command_line.to_string()),
        timestamp,
    }
}

/// The error returned when a command outlives its timeout.
pub fn timeout_error(seconds: u64, command_line: &str) -> (r: String)
    ensures
        r@ == "命令执行超时("@ + decimal(seconds as nat) + "s): "@ + command_line@,
{
    let mut m: Vec<char> = Vec::new();
    push_str(&mut m, "命令执行超时(");
    push_decimal(&mut m, seconds);
    push_str(&mut m, "s): ");
    push_str(&mut m, command_line);
    string_from_chars(&m)
}

/// The result of a finished command: its exit status and its output lines
/// joined with newlines.
pub fn finish_command(success: bool, exit_code: Option<i32>, stdout_lines: &[String], stderr_lines: &[String]) -> (r: CommandRunResult)
    ensures
        r.success == success,
        r.exit_code == exit_code,
        r.stdout@ == join(views(stdout_lines@), "\n"@),
        r.stderr@ == join(views(stderr_lines@), "\n"@),
{
    CommandRunResult {
        success,
        exit_code,
        stdout: join_strings(stdout_lines, "\n"),
        stderr: join_strings(stderr_lines, "\n"),
    }
}

/// The lines a running command printed so far, per stream.
#[derive(Debug)]
pub struct OutputCollector {
    pub stdout_lines: Vec<String>,
    pub stderr_lines: Vec<String>,
}

impl OutputCollector {
    /// Nothing printed yet.
    pub fn new() -> (r: Self)
        ensures
            r.stdout_lines@.len() == 0,
            r.stderr_lines@.len() == 0,
    {
        OutputCollector { stdout_lines: Vec::new(), stderr_lines: Vec::new() }
    }

    /// Records one printed line on its stream and returns the event that shows it.
    pub fn record_line(&mut self, step: &str, is_stderr: bool, line: String, timestamp: u64) -> (e: LogEvent)
        ensures
            is_stderr ==> views(final(self).stderr_lines@) == views(old(self).stderr_lines@).push(line@)
                && final(self).stdout_lines@ == old(self).stdout_lines@,
            !is_stderr ==> views(final(self).stdout_lines@) == views(old(self).stdout_lines@).push(line@)
                && final(self).stderr_lines@ == old(self).stderr_lines@,
            e.step@ == step@,
            e.level@ == stream_level(is_stderr),
            e.message@ == clean_stream_line(line@),
            e.raw matches Some(r) && r@ == line@,
            e.timestamp == timestamp,
    {
        let copy = line.clone();
        if is_stderr {
            let ghost before = views(self.stderr_lines@);
            self.stderr_lines.push(copy);
            assert(views(self.stderr_lines@) =~= before.push(line@));
        } else {
            let ghost before = views(self.stdout_lines@);
            self.stdout_lines.push(copy);
            assert(views(self.stdout_lines@) =~= before.push(line@));
        }
        stream_log_event(step, is_stderr, line, timestamp)
    }

    /// The result of the finished command, from its exit status.
    pub fn finish(&self, success: bool, exit_code: Option<i32>) -> (r: CommandRunResult)
        ensures
            r.success == success,
            r.exit_code == exit_code,
            r.stdout@ == join(views(self.stdout_lines@), "\n"@),
            r.stderr@ == join(views(self.stderr_lines@), "\n"@),
    {
        finish_command(success, exit_code, self.stdout_lines.as_slice(), self.stderr_lines.as_slice())
    }
}

/// Whether a command that has run for `elapsed_ms` milliseconds has
/// outlived its timeout in seconds (never, without one).
pub open spec fn deadline_passed_spec(elapsed_ms: u64, timeout_seconds: Option<u64>) -> bool {
    match timeout_seconds {
        Some(s) => elapsed_ms >= s * 1000,
        None => false,
    }
}

/// Tells whether a running command has outlived its timeout.
pub fn deadline_passed(elapsed_ms: u64, timeout_seconds: Option<u64>) -> (r: bool)
    ensures
        r == deadline_passed_spec(elapsed_ms, timeout_seconds),
{
    match timeout_seconds {
        Some(s) => elapsed_ms / 1000 >= s,
        None => false,
    }
}

/// The error of a command that could not start.
pub fn spawn_error(error: &str) -> (r: String)
    ensures
        r@ == "启动命令失败: "@ + error@,
{
    let mut m: Vec<char> = Vec::new();
    push_str(&mut m, "启动命令失败: ");
    push_str(&mut m, error);
    string_from_chars(&m)
}

/// The error of a command whose end could not be awaited.
pub fn wait_error(error: &str) -> (r: String)
    ensures
        r@ == "等待命令结束失败: "@ + error@,
{
    let mut m: Vec<char> = Vec::new();
    push_str(&mut m, "等待命令结束失败: ");
    push_str(&mut m, error);
    string_from_chars(&m)
}

/// Refreshes the process `PATH` from the Windows registry; on other
/// platforms the inherited `PATH` is already complete and nothing is done.
pub fn refresh_path_from_registry() {
}

} // verus!
