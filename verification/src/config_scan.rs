//! The configuration files of the coding agents, global and per project:
//! the items listed for them, their stable ids, and the checks made before
//! their content is shown.
use vstd::prelude::*;
use crate::json::{JsonValue, JsonModel, json_get, get};
use crate::text::{
    chars_of, decimal, ends_with, ends_with_chars, hex6, push_chars, push_decimal, push_hex6, push_str,
    replace_char, replace_char_chars, string_from_chars,
};

verus! {

broadcast use vstd::string::group_string_axioms;

/// A configuration file, found or expected.
#[derive(Debug)]
pub struct ConfigItem {
    pub id: String,
    pub source: String,
    pub name: String,
    pub category: String,
    pub scope: String,
    pub project_path: Option<String>,
    pub file_path: String,
    pub status: String,
    pub size_bytes: Option<u64>,
    pub last_modified_ms: Option<i64>,
}

/// The configuration files found.
#[derive(Debug)]
pub struct ConfigsResponse {
    pub items: Vec<ConfigItem>,
    pub project_count: usize,
}

/// The content of one configuration file.
#[derive(Debug)]
pub struct ConfigContentResponse {
    pub id: String,
    pub name: String,
    pub file_path: String,
    pub content: String,
    pub content_type: String,
}

/// The views of an optional string.
pub open spec fn opt_text(s: Option<String>) -> Option<Seq<char>> {
    match s {
        Some(x) => Some(x@),
        None => None,
    }
}

// ---------------------------------------------------------------------
// Ids
// ---------------------------------------------------------------------

/// The djb2 hash of some bytes, in 64-bit wrapping arithmetic.
pub open spec fn djb2(bytes: Seq<u8>) -> nat
    decreases bytes.len(),
{
    if bytes.len() == 0 {
        5381
    } else {
        ((djb2(bytes.drop_last()) * 33 + bytes.last()) % 0x1_0000_0000_0000_0000) as nat
    }
}

/// The short hash of a text: the low 24 bits of the djb2 hash of its UTF-8
/// bytes, as six lower-case hex digits.
pub open spec fn short_hash(text: Seq<char>) -> Seq<char> {
    hex6((djb2(vstd::utf8::encode_utf8(text)) % 0x1000000) as int)
}

/// Hashes a text to six hex digits.
pub fn simple_hash(input: &str) -> (r: String)
    ensures
        r@ == short_hash(input@),
{
    let bytes = input.as_bytes();
    let mut hash: u64 = 5381;
    let mut i: usize = 0;
    assert(bytes@.take(0) =~= Seq::<u8>::empty());
    while i < bytes.len()
        invariant
            i <= bytes@.len(),
            hash == djb2(bytes@.take(i as int)),
        decreases bytes@.len() - i,
    {
        let b = bytes[i];
        assert(bytes@.take(i + 1).drop_last() =~= bytes@.take(i as int));
        assert(bytes@.take(i + 1).last() == b);
        let m = hash.wrapping_mul(33);
        let next = m.wrapping_add(b as u64);
        proof {
            let big: int = 0x1_0000_0000_0000_0000;
            assert(m == (hash as int * 33) % big);
            assert(next == (m as int + b as int) % big);
            vstd::arithmetic::div_mod::lemma_add_mod_noop(hash as int * 33, b as int, big);
            assert((b as int) % big == b as int);
        }
        hash = next;
        i = i + 1;
    }
    assert(bytes@.take(bytes@.len() as int) =~= bytes@);
    assert(hash & 0xFFFFFF == hash % 0x1000000) by (bit_vector);
    let low = hash & 0xFFFFFF;
    let mut v: Vec<char> = Vec::new();
    push_hex6(&mut v, low);
    string_from_chars(&v)
}

/// `char::is_alphanumeric`: Unicode letters and numbers.
pub uninterp spec fn unicode_alphanumeric(c: char) -> bool;

/// Tells whether a character is alphanumeric with `char::is_alphanumeric`;
/// for ASCII that means a letter or a digit, as its documentation states.
#[verifier::external_body]
fn is_alphanumeric(c: char) -> (r: bool)
    ensures
        r == unicode_alphanumeric(c),
        (c as u32) < 0x80 ==> (r <==> (('a' <= c && c <= 'z') || ('A' <= c && c <= 'Z') || ('0' <= c && c <= '9'))),
{
    c.is_alphanumeric()
}

/// The characters kept in an id: alphanumeric ones and `-`.
pub open spec fn id_chars(s: Seq<char>) -> Seq<char>
    decreases s.len(),
{
    if s.len() == 0 {
        s
    } else if unicode_alphanumeric(s.last()) || s.last() == '-' {
        id_chars(s.drop_last()).push(s.last())
    } else {
        id_chars(s.drop_last())
    }
}

/// A file name as it appears in an id: dots and slashes become `-`, and
/// only alphanumeric characters and `-` are kept.
pub open spec fn clean_file_name(name: Seq<char>) -> Seq<char> {
    id_chars(replace_char(replace_char(name, '.', '-'), '/', '-'))
}

fn clean_file_name_exec(name: &str) -> (r: Vec<char>)
    ensures
        r@ == clean_file_name(name@),
{
    let v = chars_of(name);
    let a = replace_char_chars(&v, '.', '-');
    let b = replace_char_chars(&a, '/', '-');
    let mut out: Vec<char> = Vec::new();
    let mut i: usize = 0;
    assert(b@.take(0) =~= Seq::<char>::empty());
    while i < b.len()
        invariant
            i <= b@.len(),
            out@ == id_chars(b@.take(i as int)),
        decreases b@.len() - i,
    {
        let c = b[i];
        assert(b@.take(i + 1).drop_last() =~= b@.take(i as int));
        assert(b@.take(i + 1).last() == c);
        if is_alphanumeric(c) || c == '-' {
            out.push(c);
        }
        i = i + 1;
    }
    assert(b@.take(b@.len() as int) =~= b@);
    out
}

/// The id of a configuration item: source, scope and category joined by
/// `-`, then the short hash of the project path for a project item, then
/// the cleaned file name for an item that stands for one file of many.
pub open spec fn config_id(
    source: Seq<char>,
    scope: Seq<char>,
    category: Seq<char>,
    project_path: Option<Seq<char>>,
    file_name: Option<Seq<char>>,
) -> Seq<char> {
    let base = source + "-"@ + scope + "-"@ + category;
    let with_project = match project_path {
        Some(pp) => base + "-"@ + short_hash(pp),
        None => base,
    };
    match file_name {
        Some(f) => with_project + "-"@ + clean_file_name(f),
        None => with_project,
    }
}

/// Builds the id of a configuration item.
pub fn make_id(source: &str, scope: &str, category: &str, project_path: Option<&str>, file_name: Option<&str>) -> (r: String)
    ensures
        r@ == config_id(
            source@,
            scope@,
            category@,
            match project_path { Some(p) => Some(p@), None => None },
            match file_name { Some(f) => Some(f@), None => None },
        ),
{
    let mut v: Vec<char> = Vec::new();
    push_str(&mut v, source);
    push_str(&mut v, "-");
    push_str(&mut v, scope);
    push_str(&mut v, "-");
    push_str(&mut v, category);
    if let Some(pp) = project_path {
        let h = simple_hash(pp);
        push_str(&mut v, "-");
        push_str(&mut v, h.as_str());
    }
    if let Some(f) = file_name {
        let clean = clean_file_name_exec(f);
        push_str(&mut v, "-");
        push_chars(&mut v, &clean);
    }
    string_from_chars(&v)
}

// ---------------------------------------------------------------------
// Items
// ---------------------------------------------------------------------

/// How a content type is named from a file path: `json`, `markdown` for
/// `.md` and `.mdc`, `text` otherwise.
pub open spec fn content_type_of(path: Seq<char>) -> Seq<char> {
    if ends_with(path, ".json"@) {
        "json"@
    } else if ends_with(path, ".md"@) || ends_with(path, ".mdc"@) {
        "markdown"@
    } else {
        "text"@
    }
}

/// Names the content type of a file.
pub fn detect_content_type(file_path: &str) -> (r: String)
    ensures
        r@ == content_type_of(file_path@),
{
    let p = chars_of(file_path);
    let json = chars_of(".json");
    let md = chars_of(".md");
    let mdc = chars_of(".mdc");
    if ends_with_chars(&p, &json) {
        "json".to_string()
    } else if ends_with_chars(&p, &md) || ends_with_chars(&p, &mdc) {
        "markdown".to_string()
    } else {
        "text".to_string()
    }
}

/// What the file system says of a configuration file.
#[derive(Debug)]
pub struct FileFacts {
    /// The path names a regular file.
    pub is_file: bool,
    /// Its size and modification time, when its metadata could be read.
    pub metadata: Option<(u64, Option<i64>)>,
}

/// The categories whose items stand for one file among many.
pub open spec fn is_per_file_category(category: Seq<char>) -> bool {
    category == "commands"@ || category == "rules"@ || category == "skills"@
}

/// The item listed for a configuration file: `active` when it is a
/// non-empty regular file, `missing` otherwise, with the size and time that
/// were read.
pub fn probe_config(
    source: &str,
    scope: &str,
    category: &str,
    name: &str,
    file_path: String,
    project_path: Option<String>,
    facts: FileFacts,
) -> (r: ConfigItem)
    ensures
        r.id@ == config_id(
            source@,
            scope@,
            category@,
            opt_text(project_path),
            if is_per_file_category(category@) { Some(name@) } else { None },
        ),
        r.source@ == source@,
        r.name@ == name@,
        r.category@ == category@,
        r.scope@ == scope@,
        opt_text(r.project_path) == opt_text(project_path),
        r.file_path@ == file_path@,
        match (facts.is_file, facts.metadata) {
            (true, Some((size, mtime))) => {
                &&& r.status@ == if size == 0 { "missing"@ } else { "active"@ }
                &&& r.size_bytes == Some(size)
                &&& r.last_modified_ms == mtime
            },
            _ => {
                &&& r.status@ == "missing"@
                &&& r.size_bytes is None
                &&& r.last_modified_ms is None
            },
        },
{
    let (status, size_bytes, last_modified_ms): (String, Option<u64>, Option<i64>) = match (facts.is_file, facts.metadata) {
        (true, Some((size, mtime))) => {
            if size == 0 {
                ("missing".to_string(), Some(size), mtime)
            } else {
                ("active".to_string(), Some(size), mtime)
            }
        }
        _ => ("missing".to_string(), None, None),
    };
    let c = chars_of(category);
    let per_file = crate::json::slices_equal(&c, &chars_of("commands"))
        || crate::json::slices_equal(&c, &chars_of("rules"))
        || crate::json::slices_equal(&c, &chars_of("skills"));
    let id = match &project_path {
        Some(pp) => make_id(source, scope, category, Some(pp.as_str()), if per_file { Some(name) } else { None }),
        None => make_id(source, scope, category, None, if per_file { Some(name) } else { None }),
    };
    ConfigItem {
        id,
        source: source.to_string(),
        name: name.to_string(),
        category: category.to_string(),
        scope: scope.to_string(),
        project_path,
        file_path,
        status,
        size_bytes,
        last_modified_ms,
    }
}

/// The item listed for hooks kept inside the global settings file of the
/// agent named `source`.
pub fn global_hooks_item(source: &str, settings_path: String) -> (r: ConfigItem)
    ensures
        r.id@ == config_id(source@, "global"@, "hooks"@, None, None),
        r.source@ == source@,
        r.name@ == "hooks (in settings.json)"@,
        r.category@ == "hooks"@,
        r.scope@ == "global"@,
        r.project_path is None,
        r.file_path@ == settings_path@,
        r.status@ == "active"@,
        r.size_bytes is None,
        r.last_modified_ms is None,
{
    ConfigItem {
        id: make_id(source, "global", "hooks", None, None),
        source: source.to_string(),
        name: "hooks (in settings.json)".to_string(),
        category: "hooks".to_string(),
        scope: "global".to_string(),
        project_path: None,
        file_path: settings_path,
        status: "active".to_string(),
        size_bytes: None,
        last_modified_ms: None,
    }
}

/// The name shown for a skill: its directory and `SKILL.md`.
pub fn skill_display_name(dir_name: &str) -> (r: String)
    ensures
        r@ == dir_name@ + "/SKILL.md"@,
{
    let mut v: Vec<char> = Vec::new();
    push_str(&mut v, dir_name);
    push_str(&mut v, "/SKILL.md");
    string_from_chars(&v)
}

/// The project path an agent's project directory name stands for: `/` and
/// the name with every `-` read as `/`; hidden names stand for none.
pub open spec fn decoded_project_path(name: Seq<char>) -> Option<Seq<char>> {
    if name.len() > 0 && name[0] == '.' {
        None
    } else {
        Some("/"@ + replace_char(name, '-', '/'))
    }
}

/// Decodes a project directory name into the project path it stands for.
pub fn decode_project_dir(name: &str) -> (r: Option<String>)
    ensures
        opt_text(r) == decoded_project_path(name@),
{
    let v = chars_of(name);
    if v.len() > 0 && v[0] == '.' {
        return None;
    }
    let w = replace_char_chars(&v, '-', '/');
    let mut out: Vec<char> = Vec::new();
    push_str(&mut out, "/");
    push_chars(&mut out, &w);
    Some(string_from_chars(&out))
}

/// Settings that define hooks: their `hooks` member is a non-empty object.
pub open spec fn defines_hooks(settings: Option<JsonModel>) -> bool {
    match settings {
        Some(s) => json_get(s, "hooks"@) matches Some(JsonModel::Object(e)) && e.len() > 0,
        None => false,
    }
}

/// Tells whether parsed settings (`None` when unreadable) define hooks.
pub fn has_hooks_in_settings(settings: Option<&JsonValue>) -> (r: bool)
    ensures
        r == defines_hooks(crate::json::opt_model(settings)),
{
    match settings {
        Some(s) => match get(s, "hooks") {
            Some(JsonValue::Object(e)) => {
                assert(JsonValue::Object(*e)@->Object_0.len() == e@.len());
                e.len() > 0
            }
            _ => false,
        },
        None => false,
    }
}

/// The items of one source, in their order.
pub fn filter_by_source(items: Vec<ConfigItem>, source: &str) -> (r: Vec<ConfigItem>)
    ensures
        r@.len() <= items@.len(),
        forall|i: int| 0 <= i < r@.len() ==> (#[trigger] r@[i]).source@ == source@,
        r@ == items@.filter(|it: ConfigItem| it.source@ == source@),
{
    let s = chars_of(source);
    let mut out: Vec<ConfigItem> = Vec::new();
    let ghost all = items@;
    let mut rest = items;
    let mut i: usize = 0;
    let n = rest.len();
    assert(all.take(0).filter(|it: ConfigItem| it.source@ == source@) =~= Seq::<ConfigItem>::empty());
    while i < n
        invariant
            i <= n == all.len(),
            s@ == source@,
            rest@ == all.skip(i as int),
            out@ == all.take(i as int).filter(|it: ConfigItem| it.source@ == source@),
        decreases n - i,
    {
        let ghost before = out@;
        let item = rest.remove(0);
        assert(item == all[i as int]);
        assert(all.take(i + 1).drop_last() =~= all.take(i as int));
        assert(all.take(i + 1).last() == item);
        proof { all.take(i as int).lemma_filter_push(item, |it: ConfigItem| it.source@ == source@); }
        assert(all.take(i + 1) =~= all.take(i as int).push(item));
        let c = chars_of(item.source.as_str());
        if crate::json::slices_equal(&c, &s) {
            out.push(item);
        }
        assert(rest@ =~= all.skip(i + 1));
        i = i + 1;
    }
    assert(all.take(n as int) =~= all);
    proof {
        all.lemma_filter_len(|it: ConfigItem| it.source@ == source@);
        assert forall|i: int| 0 <= i < out@.len() implies (#[trigger] out@[i]).source@ == source@ by {
            all.lemma_filter_pred(|it: ConfigItem| it.source@ == source@, i);
        }
    }
    out
}

// ---------------------------------------------------------------------
// Content
// ---------------------------------------------------------------------

/// The largest configuration file shown, in bytes.
pub const MAX_CONTENT_BYTES: u64 = 1_048_576;

/// Whether a configuration file's content may be shown: not for a missing
/// item, nor when its metadata cannot be read (`Err` with the reason), nor
/// when it is larger than 1 MiB.
pub fn check_config_content(status: &str, file_path: &str, size: Result<u64, String>) -> (r: Result<(), String>)
    ensures
        status@ == "missing"@ ==> (r matches Err(m) && m@ == "config file does not exist: "@ + file_path@),
        status@ != "missing"@ ==> match size {
            Err(e) => r matches Err(m) && m@ == "failed to read metadata for "@ + file_path@ + ": "@ + e@,
            Ok(n) => if n > 1_048_576 {
                r matches Err(m) && m@ == "config file too large ("@ + decimal(n as nat) + " bytes, max 1048576)"@
            } else {
                r is Ok
            },
        },
{
    let st = chars_of(status);
    if crate::json::slices_equal(&st, &chars_of("missing")) {
        let mut v: Vec<char> = Vec::new();
        push_str(&mut v, "config file does not exist: ");
        push_str(&mut v, file_path);
        return Err(string_from_chars(&v));
    }
    match size {
        Err(e) => {
            let mut v: Vec<char> = Vec::new();
            push_str(&mut v, "failed to read metadata for ");
            push_str(&mut v, file_path);
            push_str(&mut v, ": ");
            push_str(&mut v, e.as_str());
            Err(string_from_chars(&v))
        }
        Ok(n) => {
            if n > MAX_CONTENT_BYTES {
                let mut v: Vec<char> = Vec::new();
                push_str(&mut v, "config file too large (");
                push_decimal(&mut v, n);
                push_str(&mut v, " bytes, max 1048576)");
                Err(string_from_chars(&v))
            } else {
                Ok(())
            }
        }
    }
}

/// The content shown for an item, with its content type.
pub fn config_content(item: &ConfigItem, content: String) -> (r: ConfigContentResponse)
    ensures
        r.id@ == item.id@,
        r.name@ == item.name@,
        r.file_path@ == item.file_path@,
        r.content@ == content@,
        r.content_type@ == content_type_of(item.file_path@),
{
    ConfigContentResponse {
        id: item.id.clone(),
        name: item.name.clone(),
        file_path: item.file_path.clone(),
        content,
        content_type: detect_content_type(item.file_path.as_str()),
    }
}

} // verus!
