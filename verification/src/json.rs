//! A plain model of JSON documents (event payloads, settings files and
//! provider replies), with the lookups and the redaction of secrets that
//! the collector applies to them.
use vstd::prelude::*;
use crate::text::{ascii_lowercase, ascii_lowercase_chars, chars_of, contains, contains_chars};

verus! {

broadcast use vstd::string::group_string_axioms;

/// A JSON value. Numbers keep the text that the parser printed for them;
/// objects keep their entries in order, each key at most once.
#[derive(Debug)]
pub enum JsonValue {
    Null,
    Bool(bool),
    Number(String),
    Str(String),
    Array(Vec<JsonValue>),
    Object(Vec<(String, JsonValue)>),
}

/// The mathematical view of a [`JsonValue`].
pub enum JsonModel {
    Null,
    Bool(bool),
    Number(Seq<char>),
    Str(Seq<char>),
    Array(Seq<JsonModel>),
    Object(Seq<(Seq<char>, JsonModel)>),
}

impl JsonValue {
    /// The model of this value.
    pub open spec fn model(&self) -> JsonModel
        decreases self,
    {
        match self {
            JsonValue::Null => JsonModel::Null,
            JsonValue::Bool(b) => JsonModel::Bool(*b),
            JsonValue::Number(n) => JsonModel::Number(n@),
            JsonValue::Str(s) => JsonModel::Str(s@),
            JsonValue::Array(items) => JsonModel::Array(
                Seq::new(items@.len(), |i: int| if 0 <= i < items@.len() { items@[i].model() } else { JsonModel::Null }),
            ),
            JsonValue::Object(entries) => JsonModel::Object(
                Seq::new(entries@.len(), |i: int| if 0 <= i < entries@.len() { (entries@[i].0@, entries@[i].1.model()) } else { (Seq::empty(), JsonModel::Null) }),
            ),
        }
    }
}

impl View for JsonValue {
    type V = JsonModel;

    open spec fn view(&self) -> JsonModel {
        self.model()
    }
}

// ---------------------------------------------------------------------
// Lookups
// ---------------------------------------------------------------------

/// The value of the first entry named `key`.
pub open spec fn entries_get(entries: Seq<(Seq<char>, JsonModel)>, key: Seq<char>) -> Option<JsonModel>
    decreases entries.len(),
{
    if entries.len() == 0 {
        None
    } else if entries[0].0 == key {
        Some(entries[0].1)
    } else {
        entries_get(entries.drop_first(), key)
    }
}

/// `Value::get(key)`: the member `key` of an object; nothing for other values.
pub open spec fn json_get(v: JsonModel, key: Seq<char>) -> Option<JsonModel> {
    match v {
        JsonModel::Object(entries) => entries_get(entries, key),
        _ => None,
    }
}

/// `Value::as_str`.
pub open spec fn json_as_str(v: Option<JsonModel>) -> Option<Seq<char>> {
    match v {
        Some(JsonModel::Str(s)) => Some(s),
        _ => None,
    }
}

/// `Value::as_bool`.
pub open spec fn json_as_bool(v: Option<JsonModel>) -> Option<bool> {
    match v {
        Some(JsonModel::Bool(b)) => Some(b),
        _ => None,
    }
}

/// `Value::get(key)` chained through an optional value.
pub open spec fn json_get_opt(v: Option<JsonModel>, key: Seq<char>) -> Option<JsonModel> {
    match v {
        Some(m) => json_get(m, key),
        None => None,
    }
}

/// The member `key` of an object, by reference.
pub fn get<'a>(v: &'a JsonValue, key: &str) -> (r: Option<&'a JsonValue>)
    ensures
        r matches Some(x) ==> json_get(v@, key@) == Some(x@),
        r is None ==> json_get(v@, key@) is None,
{
    match v {
        JsonValue::Object(entries) => {
            let k = chars_of(key);
            let n = entries.len();
            let ghost es = v@->Object_0;
            assert(es.subrange(0, n as int) =~= es);
            let mut i: usize = 0;
            while i < n
                invariant
                    n == entries@.len() == es.len(),
                    i <= n,
                    k@ == key@,
                    forall|j: int| 0 <= j < n ==> #[trigger] es[j] == (entries@[j].0@, entries@[j].1@),
                    json_get(v@, key@) == entries_get(es, key@),
                    entries_get(es, key@) == entries_get(es.subrange(i as int, n as int), key@),
                decreases n - i,
            {
                let ek = chars_of(entries[i].0.as_str());
                assert(es.subrange(i as int, n as int)[0] == es[i as int]);
                if slices_equal(&ek, &k) {
                    return Some(&entries[i].1);
                }
                assert(es.subrange(i as int, n as int).drop_first() =~= es.subrange(i + 1, n as int));
                i = i + 1;
            }
            None
        }
        _ => None,
    }
}

/// Two character slices hold the same characters.
pub fn slices_equal(a: &[char], b: &[char]) -> (r: bool)
    ensures
        r == (a@ == b@),
{
    if a.len() != b.len() {
        return false;
    }
    let mut i: usize = 0;
    while i < a.len()
        invariant
            a.len() == b.len(),
            i <= a.len(),
            forall|j: int| 0 <= j < i ==> a@[j] == b@[j],
        decreases a.len() - i,
    {
        if a[i] != b[i] {
            return false;
        }
        i = i + 1;
    }
    assert(a@ =~= b@);
    true
}

/// `Value::as_str` on an optional value.
pub fn as_str<'a>(v: Option<&'a JsonValue>) -> (r: Option<&'a String>)
    ensures
        r matches Some(s) ==> json_as_str(opt_model(v)) == Some(s@),
        r is None ==> json_as_str(opt_model(v)) is None,
{
    match v {
        Some(JsonValue::Str(s)) => Some(s),
        _ => None,
    }
}

/// `Value::as_bool` on an optional value.
pub fn as_bool(v: Option<&JsonValue>) -> (r: Option<bool>)
    ensures
        r == json_as_bool(opt_model(v)),
{
    match v {
        Some(JsonValue::Bool(b)) => Some(*b),
        _ => None,
    }
}

/// `Value::get(key)` on an optional value.
pub fn get_opt<'a>(v: Option<&'a JsonValue>, key: &str) -> (r: Option<&'a JsonValue>)
    ensures
        opt_model(r) == json_get_opt(opt_model(v), key@),
{
    match v {
        Some(x) => get(x, key),
        None => None,
    }
}

/// `Value::as_u64`: a number printed as plain decimal digits that fit in a `u64`.
pub open spec fn json_as_u64(v: Option<JsonModel>) -> Option<int> {
    match v {
        Some(JsonModel::Number(t)) => if t.len() > 0 && t[0] != '+' {
            crate::text::parse_bounded(t, u64::MAX as int)
        } else {
            None
        },
        _ => None,
    }
}

/// `Value::as_i64`: a number printed as plain decimal digits, possibly
/// after a minus sign, that fits in an `i64`.
pub open spec fn json_as_i64(v: Option<JsonModel>) -> Option<int> {
    match v {
        Some(JsonModel::Number(t)) => if t.len() > 1 && t[0] == '-' && t[1] != '+' {
            match crate::text::parse_bounded(t.drop_first(), 0x8000_0000_0000_0000) {
                Some(x) => Some(-x),
                None => None,
            }
        } else if t.len() > 0 && t[0] != '+' && t[0] != '-' {
            crate::text::parse_bounded(t, i64::MAX as int)
        } else {
            None
        },
        _ => None,
    }
}

/// `Value::as_u64` on an optional value.
pub fn as_u64(v: Option<&JsonValue>) -> (r: Option<u64>)
    ensures
        match r {
            Some(x) => json_as_u64(opt_model(v)) == Some(x as int),
            None => json_as_u64(opt_model(v)) is None,
        },
{
    match v {
        Some(JsonValue::Number(t)) => {
            let c = chars_of(t.as_str());
            if c.len() > 0 && c[0] != '+' {
                crate::text::parse_bounded_chars(&c, 0xFFFF_FFFF_FFFF_FFFF)
            } else {
                None
            }
        }
        _ => None,
    }
}

/// `Value::as_i64` on an optional value.
pub fn as_i64(v: Option<&JsonValue>) -> (r: Option<i64>)
    ensures
        match r {
            Some(x) => json_as_i64(opt_model(v)) == Some(x as int),
            None => json_as_i64(opt_model(v)) is None,
        },
{
    match v {
        Some(JsonValue::Number(t)) => {
            let c = chars_of(t.as_str());
            if c.len() > 1 && c[0] == '-' && c[1] != '+' {
                let mut rest: Vec<char> = Vec::new();
                let mut i: usize = 1;
                while i < c.len()
                    invariant
                        1 <= i <= c@.len(),
                        rest@ == c@.subrange(1, i as int),
                    decreases c@.len() - i,
                {
                    rest.push(c[i]);
                    i = i + 1;
                    assert(rest@ =~= c@.subrange(1, i as int));
                }
                assert(rest@ =~= c@.drop_first());
                match crate::text::parse_bounded_chars(&rest, 0x8000_0000_0000_0000) {
                    Some(x) => {
                        if x == 0x8000_0000_0000_0000 {
                            Some(i64::MIN)
                        } else {
                            Some(-(x as i64))
                        }
                    }
                    None => None,
                }
            } else if c.len() > 0 && c[0] != '+' && c[0] != '-' {
                match crate::text::parse_bounded_chars(&c, 0x7FFF_FFFF_FFFF_FFFF) {
                    Some(x) => Some(x as i64),
                    None => None,
                }
            } else {
                None
            }
        }
        _ => None,
    }
}

/// The model of an optional value.
pub open spec fn opt_model(v: Option<&JsonValue>) -> Option<JsonModel> {
    match v {
        Some(x) => Some(x@),
        None => None,
    }
}

// ---------------------------------------------------------------------
// Construction
// ---------------------------------------------------------------------

/// The models of object entries.
pub open spec fn entries_model(entries: Seq<(String, JsonValue)>) -> Seq<(Seq<char>, JsonModel)> {
    Seq::new(entries.len(), |i: int| (entries[i].0@, entries[i].1@))
}

/// The models of array items.
pub open spec fn items_model(items: Seq<JsonValue>) -> Seq<JsonModel> {
    Seq::new(items.len(), |i: int| items[i]@)
}

/// An object with the given entries, in order.
pub fn object_of(entries: Vec<(String, JsonValue)>) -> (r: JsonValue)
    ensures
        r@ == JsonModel::Object(entries_model(entries@)),
{
    let ghost es = entries@;
    let r = JsonValue::Object(entries);
    assert(r@->Object_0 =~= entries_model(es));
    r
}

/// An array with the given items, in order.
pub fn array_of(items: Vec<JsonValue>) -> (r: JsonValue)
    ensures
        r@ == JsonModel::Array(items_model(items@)),
{
    let ghost its = items@;
    let r = JsonValue::Array(items);
    assert(r@->Array_0 =~= items_model(its));
    r
}

/// A JSON string holding `s`.
pub fn string_value(s: &str) -> (r: JsonValue)
    ensures
        r@ == JsonModel::Str(s@),
{
    JsonValue::Str(s.to_string())
}

/// An object entry.
pub fn entry(key: &str, value: JsonValue) -> (r: (String, JsonValue))
    ensures
        r.0@ == key@,
        r.1 == value,
{
    (key.to_string(), value)
}

// ---------------------------------------------------------------------
// Copies
// ---------------------------------------------------------------------

/// A deep copy of `v`.
pub fn json_clone(v: &JsonValue) -> (r: JsonValue)
    ensures
        r@ == v@,
    decreases v,
{
    match v {
        JsonValue::Null => JsonValue::Null,
        JsonValue::Bool(b) => JsonValue::Bool(*b),
        JsonValue::Number(n) => JsonValue::Number(n.clone()),
        JsonValue::Str(s) => JsonValue::Str(s.clone()),
        JsonValue::Array(items) => {
            let mut out: Vec<JsonValue> = Vec::new();
            let mut i: usize = 0;
            while i < items.len()
                invariant
                    i <= items@.len(),
                    out@.len() == i,
                    forall|j: int| 0 <= j < i ==> (#[trigger] out@[j])@ == items@[j]@,
                    *v == JsonValue::Array(*items),
                decreases items@.len() - i,
            {
                assert(decreases_to!(*v => (*v)->Array_0));
                assert(decreases_to!((*v)->Array_0 => (*v)->Array_0[i as int]));
                out.push(json_clone(&items[i]));
                i = i + 1;
            }
            let r = JsonValue::Array(out);
            assert(r@ == v@) by {
                assert(r@->Array_0 =~= v@->Array_0);
            }
            r
        }
        JsonValue::Object(entries) => {
            let mut out: Vec<(String, JsonValue)> = Vec::new();
            let mut i: usize = 0;
            while i < entries.len()
                invariant
                    i <= entries@.len(),
                    out@.len() == i,
                    forall|j: int| 0 <= j < i ==> (#[trigger] out@[j]).0@ == entries@[j].0@,
                    forall|j: int| 0 <= j < i ==> (#[trigger] out@[j]).1@ == entries@[j].1@,
                    *v == JsonValue::Object(*entries),
                decreases entries@.len() - i,
            {
                assert(decreases_to!(*v => (*v)->Object_0));
                    assert(decreases_to!((*v)->Object_0 => (*v)->Object_0[i as int]));
                    assert(decreases_to!((*v)->Object_0[i as int] => (*v)->Object_0[i as int].1));
                out.push((entries[i].0.clone(), json_clone(&entries[i].1)));
                i = i + 1;
            }
            let r = JsonValue::Object(out);
            assert(r@ == v@) by {
                assert(r@->Object_0 =~= v@->Object_0);
            }
            r
        }
    }
}

// ---------------------------------------------------------------------
// Redaction of secrets
// ---------------------------------------------------------------------

/// A lower-cased object key that names a secret: tokens, secrets,
/// passwords, credentials, private data, certificates, cookies, the
/// `authorization` header, and any key mentioning `key` but `keyboard`.
pub open spec fn is_sensitive_key(key_lower: Seq<char>) -> bool {
    ||| contains(key_lower, "token"@)
    ||| contains(key_lower, "secret"@)
    ||| contains(key_lower, "password"@)
    ||| contains(key_lower, "credential"@)
    ||| contains(key_lower, "private"@)
    ||| contains(key_lower, "cert"@)
    ||| contains(key_lower, "cookie"@)
    ||| key_lower == "authorization"@
    ||| (contains(key_lower, "key"@) && key_lower != "keyboard"@)
}

/// The text that replaces a secret.
pub open spec fn redacted_text() -> Seq<char> {
    "[REDACTED]"@
}

/// `v` with the value of every object entry whose key is sensitive
/// (compared in ASCII lower case) replaced by `"[REDACTED]"`, at any depth.
pub open spec fn sanitize(v: JsonModel) -> JsonModel
    decreases v,
{
    match v {
        JsonModel::Array(items) => JsonModel::Array(
            Seq::new(items.len(), |i: int| if 0 <= i < items.len() { sanitize(items[i]) } else { JsonModel::Null }),
        ),
        JsonModel::Object(entries) => JsonModel::Object(
            Seq::new(entries.len(), |i: int| if 0 <= i < entries.len() { sanitize_entry(entries[i]) } else { (Seq::empty(), JsonModel::Null) }),
        ),
        _ => v,
    }
}

/// One object entry after redaction.
pub open spec fn sanitize_entry(e: (Seq<char>, JsonModel)) -> (Seq<char>, JsonModel)
    decreases e,
{
    if is_sensitive_key(ascii_lowercase(e.0)) {
        (e.0, JsonModel::Str(redacted_text()))
    } else {
        (e.0, sanitize(e.1))
    }
}

/// No sensitive key anywhere in `v` holds anything but the redaction text.
pub open spec fn fully_redacted(v: JsonModel) -> bool
    decreases v,
{
    match v {
        JsonModel::Array(items) => forall|i: int| 0 <= i < items.len() ==> fully_redacted(#[trigger] items[i]),
        JsonModel::Object(entries) => forall|i: int| 0 <= i < entries.len() ==> {
            let e = #[trigger] entries[i];
            if is_sensitive_key(ascii_lowercase(e.0)) {
                e.1 == JsonModel::Str(redacted_text())
            } else {
                fully_redacted(e.1)
            }
        },
        _ => true,
    }
}

/// The key names a secret.
pub fn is_sensitive_key_exec(key_lower: &[char]) -> (r: bool)
    ensures
        r == is_sensitive_key(key_lower@),
{
    let token = chars_of("token");
    let secret = chars_of("secret");
    let password = chars_of("password");
    let credential = chars_of("credential");
    let private = chars_of("private");
    let cert = chars_of("cert");
    let cookie = chars_of("cookie");
    let authorization = chars_of("authorization");
    let key = chars_of("key");
    let keyboard = chars_of("keyboard");
    contains_chars(key_lower, &token) || contains_chars(key_lower, &secret)
        || contains_chars(key_lower, &password) || contains_chars(key_lower, &credential)
        || contains_chars(key_lower, &private) || contains_chars(key_lower, &cert)
        || contains_chars(key_lower, &cookie) || slices_equal(key_lower, &authorization)
        || (contains_chars(key_lower, &key) && !slices_equal(key_lower, &keyboard))
}

/// `String::from("[REDACTED]")`.
fn redacted_string() -> (s: String)
    ensures
        s@ == redacted_text(),
{
    "[REDACTED]".to_string()
}

/// The redacted copy of `v` (see [`sanitize`]).
pub fn sanitized(v: &JsonValue) -> (r: JsonValue)
    ensures
        r@ == sanitize(v@),
    decreases v,
{
    match v {
        JsonValue::Array(items) => {
            let mut out: Vec<JsonValue> = Vec::new();
            let mut i: usize = 0;
            while i < items.len()
                invariant
                    i <= items@.len(),
                    out@.len() == i,
                    forall|j: int| 0 <= j < i ==> (#[trigger] out@[j])@ == sanitize(items@[j]@),
                    *v == JsonValue::Array(*items),
                decreases items@.len() - i,
            {
                assert(decreases_to!(*v => (*v)->Array_0));
                assert(decreases_to!((*v)->Array_0 => (*v)->Array_0[i as int]));
                out.push(sanitized(&items[i]));
                i = i + 1;
            }
            let r = JsonValue::Array(out);
            assert(r@->Array_0 =~= sanitize(v@)->Array_0);
            r
        }
        JsonValue::Object(entries) => {
            let mut out: Vec<(String, JsonValue)> = Vec::new();
            let mut i: usize = 0;
            while i < entries.len()
                invariant
                    i <= entries@.len(),
                    out@.len() == i,
                    forall|j: int| 0 <= j < i ==> ((#[trigger] out@[j]).0@, out@[j].1@)
                        == sanitize_entry((entries@[j].0@, entries@[j].1@)),
                    *v == JsonValue::Object(*entries),
                decreases entries@.len() - i,
            {
                let k = chars_of(entries[i].0.as_str());
                let lower = ascii_lowercase_chars(&k);
                if is_sensitive_key_exec(&lower) {
                    out.push((entries[i].0.clone(), JsonValue::Str(redacted_string())));
                } else {
                    assert(decreases_to!(*v => (*v)->Object_0));
                    assert(decreases_to!((*v)->Object_0 => (*v)->Object_0[i as int]));
                    assert(decreases_to!((*v)->Object_0[i as int] => (*v)->Object_0[i as int].1));
                    out.push((entries[i].0.clone(), sanitized(&entries[i].1)));
                }
                i = i + 1;
            }
            let r = JsonValue::Object(out);
            assert(r@->Object_0 =~= sanitize(v@)->Object_0);
            r
        }
        JsonValue::Null => JsonValue::Null,
        JsonValue::Bool(b) => JsonValue::Bool(*b),
        JsonValue::Number(n) => JsonValue::Number(n.clone()),
        JsonValue::Str(s) => JsonValue::Str(s.clone()),
    }
}

/// Replaces, in place and at any depth, the value of every entry whose key
/// names a secret by `"[REDACTED]"`.
pub fn sanitize_json_value(value: &mut JsonValue)
    ensures
        final(value)@ == sanitize(old(value)@),
{
    let r = sanitized(value);
    *value = r;
}

/// Law: after redaction no secret is left, at any depth.
pub proof fn lemma_sanitize_redacts(v: JsonModel)
    ensures
        fully_redacted(sanitize(v)),
    decreases v,
{
    match v {
        JsonModel::Array(items) => {
            assert forall|i: int| 0 <= i < items.len() implies fully_redacted(#[trigger] sanitize(v)->Array_0[i]) by {
                lemma_sanitize_redacts(items[i]);
            }
        }
        JsonModel::Object(entries) => {
            let out = sanitize(v)->Object_0;
            assert forall|i: int| 0 <= i < entries.len() implies {
                let e = #[trigger] out[i];
                if is_sensitive_key(ascii_lowercase(e.0)) {
                    e.1 == JsonModel::Str(redacted_text())
                } else {
                    fully_redacted(e.1)
                }
            } by {
                assert(out[i] == sanitize_entry(entries[i]));
                if !is_sensitive_key(ascii_lowercase(entries[i].0)) {
                    lemma_sanitize_redacts(entries[i].1);
                }
            }
        }
        _ => {}
    }
}

/// Law: redacting twice is redacting once.
pub proof fn lemma_sanitize_idempotent(v: JsonModel)
    ensures
        sanitize(sanitize(v)) == sanitize(v),
    decreases v,
{
    match v {
        JsonModel::Array(items) => {
            assert forall|i: int| 0 <= i < items.len() implies sanitize(sanitize(items[i])) == sanitize(items[i]) by {
                lemma_sanitize_idempotent(items[i]);
            }
            assert(sanitize(sanitize(v))->Array_0 =~= sanitize(v)->Array_0);
        }
        JsonModel::Object(entries) => {
            assert forall|i: int| 0 <= i < entries.len() implies sanitize_entry(sanitize_entry(entries[i])) == sanitize_entry(entries[i]) by {
                if !is_sensitive_key(ascii_lowercase(entries[i].0)) {
                    lemma_sanitize_idempotent(entries[i].1);
                }
            }
            assert(sanitize(sanitize(v))->Object_0 =~= sanitize(v)->Object_0);
        }
        _ => {}
    }
}

// ---------------------------------------------------------------------
// Removing a member
// ---------------------------------------------------------------------

/// The entries of an object without those named `key`.
pub open spec fn entries_without(entries: Seq<(Seq<char>, JsonModel)>, key: Seq<char>) -> Seq<(Seq<char>, JsonModel)>
    decreases entries.len(),
{
    if entries.len() == 0 {
        entries
    } else {
        let rest = entries_without(entries.drop_last(), key);
        if entries.last().0 != key { rest.push(entries.last()) } else { rest }
    }
}

/// `Map::remove(key)` on an object; other values are unchanged.
pub open spec fn json_remove(v: JsonModel, key: Seq<char>) -> JsonModel {
    match v {
        JsonModel::Object(entries) => JsonModel::Object(entries_without(entries, key)),
        _ => v,
    }
}

/// Removes the member `key` from an object value.
pub fn remove_member(value: JsonValue, key: &str) -> (r: JsonValue)
    ensures
        r@ == json_remove(value@, key@),
{
    let ghost vm = value@;
    match value {
        JsonValue::Object(entries) => {
            let k = chars_of(key);
            let ghost es = Seq::new(entries@.len(), |i: int| (entries@[i].0@, entries@[i].1@));
            assert(vm->Object_0 =~= es);
            let mut out: Vec<(String, JsonValue)> = Vec::new();
            let mut i: usize = 0;
            let n = entries.len();
            let mut rest = entries;
            while i < n
                invariant
                    n == es.len(),
                    i <= n,
                    rest@.len() == n - i,
                    k@ == key@,
                    forall|j: int| 0 <= j < n - i ==> ((#[trigger] rest@[j]).0@, rest@[j].1@) == es[i + j],
                    Seq::new(out@.len(), |j: int| (out@[j].0@, out@[j].1@)) == entries_without(es.take(i as int), key@),
                decreases n - i,
            {
                let ghost before = Seq::new(out@.len(), |j: int| (out@[j].0@, out@[j].1@));
                let ghost old_rest = rest@;
                let e = rest.remove(0);
                assert(((e.0)@, e.1@) == es[i as int]) by {
                    assert(old_rest[0] == e);
                }
                assert forall|j: int| 0 <= j < n - (i + 1) implies ((#[trigger] rest@[j]).0@, rest@[j].1@) == es[i + 1 + j] by {
                    assert(rest@[j] == old_rest[j + 1]);
                }
                let ek = chars_of(e.0.as_str());
                assert(es.take(i + 1).drop_last() =~= es.take(i as int));
                assert(es.take(i + 1).last() == es[i as int]);
                if !slices_equal(&ek, &k) {
                    out.push(e);
                    assert(Seq::new(out@.len(), |j: int| (out@[j].0@, out@[j].1@)) =~= before.push(es[i as int]));
                } else {
                    assert(Seq::new(out@.len(), |j: int| (out@[j].0@, out@[j].1@)) =~= before);
                }
                i = i + 1;
            }
            assert(es.take(n as int) =~= es);
            let r = JsonValue::Object(out);
            assert(r@->Object_0 =~= Seq::new(out@.len(), |j: int| (out@[j].0@, out@[j].1@)));
            r
        }
        other => other,
    }
}

// ---------------------------------------------------------------------
// JSON text
// ---------------------------------------------------------------------

/// `serde_json::from_str::<Value>(text)` succeeds, with an object.
pub uninterp spec fn json_text_is_object(text: Seq<char>) -> bool;

/// Parses `text` with `serde_json` and tells whether it is a JSON object.
#[verifier::external_body]
pub(crate) fn json_text_is_object_exec(text: &str) -> (r: bool)
    ensures
        r == json_text_is_object(text@),
{
    match serde_json::from_str::<serde_json::Value>(text) {
        Ok(serde_json::Value::Object(_)) => true,
        _ => false,
    }
}

} // verus!
