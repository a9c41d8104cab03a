//! Refreshing the Windows `PATH` of a running process: the entries read
//! from the registry, and the merge that adds only the entries the current
//! `PATH` lacks, compared without regard to case.
use vstd::prelude::*;
use crate::process_log::{join, views, join_strings};
use crate::text::{
    chars_of, find, find_chars, is_first_occurrence, string_from_chars, text_lines, trim, trim_chars,
};
use crate::transcript::text_lines_of;

verus! {

broadcast use vstd::string::group_string_axioms;

/// `str::split(c)`: the pieces of `s` between the occurrences of `c`.
pub open spec fn split_on(s: Seq<char>, c: char) -> Seq<Seq<char>>
    decreases s.len(),
{
    if s.len() == 0 {
        seq![Seq::empty()]
    } else {
        let rest = split_on(s.drop_last(), c);
        if s.last() == c {
            rest.push(Seq::empty())
        } else {
            rest.update(rest.len() - 1, rest.last().push(s.last()))
        }
    }
}

proof fn lemma_split_on_nonempty(s: Seq<char>, c: char)
    ensures
        split_on(s, c).len() >= 1,
    decreases s.len(),
{
    if s.len() > 0 {
        lemma_split_on_nonempty(s.drop_last(), c);
    }
}

/// Splits text at each occurrence of a character.
pub fn split_on_char(s: &[char], c: char) -> (r: Vec<String>)
    ensures
        views(r@) == split_on(s@, c),
{
    let mut pieces: Vec<String> = Vec::new();
    let mut cur: Vec<char> = Vec::new();
    let mut i: usize = 0;
    assert(s@.take(0) =~= Seq::<char>::empty());
    while i < s.len()
        invariant
            i <= s@.len(),
            views(pieces@).push(cur@) == split_on(s@.take(i as int), c),
        decreases s@.len() - i,
    {
        proof { lemma_split_on_nonempty(s@.take(i as int), c); }
        assert(s@.take(i + 1).drop_last() =~= s@.take(i as int));
        assert(s@.take(i + 1).last() == s@[i as int]);
        let ghost before = views(pieces@);
        if s[i] == c {
            pieces.push(string_from_chars(&cur));
            cur = Vec::new();
            assert(views(pieces@).push(cur@) =~= before.push(split_on(s@.take(i as int), c).last()).push(Seq::empty()));
            assert(before.push(split_on(s@.take(i as int), c).last()) =~= split_on(s@.take(i as int), c));
        } else {
            let ghost old_cur = cur@;
            cur.push(s[i]);
            assert(views(pieces@).push(cur@) =~= split_on(s@.take(i as int), c).update(
                split_on(s@.take(i as int), c).len() - 1,
                old_cur.push(s@[i as int]),
            ));
        }
        i = i + 1;
    }
    assert(s@.take(s@.len() as int) =~= s@);
    pieces.push(string_from_chars(&cur));
    pieces
}

/// The pieces, trimmed, without the empty ones.
pub open spec fn trimmed_nonempty(pieces: Seq<Seq<char>>) -> Seq<Seq<char>>
    decreases pieces.len(),
{
    if pieces.len() == 0 {
        Seq::empty()
    } else {
        let rest = trimmed_nonempty(pieces.drop_last());
        let t = trim(pieces.last());
        if t.len() > 0 { rest.push(t) } else { rest }
    }
}

fn trimmed_nonempty_exec(pieces: &Vec<String>) -> (r: Vec<String>)
    ensures
        views(r@) == trimmed_nonempty(views(pieces@)),
{
    let mut out: Vec<String> = Vec::new();
    let mut i: usize = 0;
    assert(views(pieces@).take(0) =~= Seq::<Seq<char>>::empty());
    while i < pieces.len()
        invariant
            i <= pieces@.len(),
            views(out@) == trimmed_nonempty(views(pieces@).take(i as int)),
        decreases pieces@.len() - i,
    {
        assert(views(pieces@).take(i + 1).drop_last() =~= views(pieces@).take(i as int));
        assert(views(pieces@).take(i + 1).last() == pieces@[i as int]@);
        let t = crate::text::trim_str(pieces[i].as_str());
        if !t.as_str().is_empty() {
            let ghost before = views(out@);
            out.push(t);
            assert(views(out@) =~= before.push(out@[out@.len() - 1]@));
        }
        i = i + 1;
    }
    assert(views(pieces@).take(pieces@.len() as int) =~= views(pieces@));
    out
}

/// The value a registry line carries: from the first `REG_SZ` (or else
/// `REG_EXPAND_SZ`) of the trimmed line, the text after the next run of
/// four spaces, trimmed, when not empty.
pub open spec fn reg_line_value(line: Seq<char>) -> Option<Seq<char>> {
    let t = trim(line);
    let pos = match find(t, "REG_SZ"@) {
        Some(p) => Some(p),
        None => find(t, "REG_EXPAND_SZ"@),
    };
    match pos {
        Some(p) => {
            let after = t.skip(p);
            match find(after, "    "@) {
                Some(v) => {
                    let val = trim(after.skip(v));
                    if val.len() > 0 { Some(val) } else { None }
                },
                None => None,
            }
        },
        None => None,
    }
}

/// The value of the first line that carries one.
pub open spec fn reg_value(lines: Seq<Seq<char>>) -> Option<Seq<char>>
    decreases lines.len(),
{
    if lines.len() == 0 {
        None
    } else {
        match reg_line_value(lines[0]) {
            Some(v) => Some(v),
            None => reg_value(lines.drop_first()),
        }
    }
}

/// The `PATH` entries a `reg query ... /v Path` printed: its value split
/// at `;`, each entry trimmed, empty ones dropped.
pub open spec fn registry_entries(output: Seq<char>) -> Seq<Seq<char>> {
    match reg_value(text_lines(output)) {
        Some(v) => trimmed_nonempty(split_on(v, ';')),
        None => Seq::empty(),
    }
}

fn skip_chars(v: &[char], start: usize) -> (r: Vec<char>)
    requires
        start <= v@.len(),
    ensures
        r@ == v@.skip(start as int),
{
    let mut r: Vec<char> = Vec::new();
    let mut i: usize = start;
    while i < v.len()
        invariant
            start <= i <= v@.len(),
            r@ == v@.subrange(start as int, i as int),
        decreases v@.len() - i,
    {
        r.push(v[i]);
        i = i + 1;
        assert(r@ =~= v@.subrange(start as int, i as int));
    }
    assert(v@.subrange(start as int, v@.len() as int) =~= v@.skip(start as int));
    r
}

fn reg_line_value_exec(line: &str) -> (r: Option<Vec<char>>)
    ensures
        match r {
            Some(v) => reg_line_value(line@) == Some(v@),
            None => reg_line_value(line@) is None,
        },
{
    let raw = chars_of(line);
    let t = trim_chars(&raw);
    let sz = chars_of("REG_SZ");
    let expand = chars_of("REG_EXPAND_SZ");
    let sep = chars_of("    ");
    let pos = match find_chars(&t, &sz) {
        Some(p) => Some(p),
        None => find_chars(&t, &expand),
    };
    match pos {
        Some(p) => {
            assert(p <= t@.len()) by {
                assert(is_first_occurrence(t@, sz@, p as int) || is_first_occurrence(t@, expand@, p as int));
            }
            let after = skip_chars(&t, p);
            match find_chars(&after, &sep) {
                Some(vpos) => {
                    assert(vpos <= after@.len()) by {
                        assert(is_first_occurrence(after@, sep@, vpos as int));
                    }
                    let rest = skip_chars(&after, vpos);
                    let val = trim_chars(&rest);
                    if val.len() > 0 { Some(val) } else { None }
                }
                None => None,
            }
        }
        None => None,
    }
}

/// The value the first value-carrying line of `reg query` output holds.
pub(crate) fn registry_value(output: &str) -> (r: Option<Vec<char>>)
    ensures
        match r {
            Some(v) => reg_value(text_lines(output@)) == Some(v@),
            None => reg_value(text_lines(output@)) is None,
        },
{
    let lines = text_lines_of(output);
    let ghost tl = text_lines(output@);
    let mut i: usize = 0;
    assert(tl.subrange(0, tl.len() as int) =~= tl);
    while i < lines.len()
        invariant
            i <= lines@.len() == tl.len(),
            tl == text_lines(output@),
            forall|k: int| 0 <= k < lines@.len() ==> #[trigger] lines@[k]@ == tl[k],
            reg_value(tl) == reg_value(tl.subrange(i as int, tl.len() as int)),
        decreases lines@.len() - i,
    {
        let ghost rest = tl.subrange(i as int, tl.len() as int);
        assert(rest[0] == tl[i as int]);
        assert(rest.drop_first() =~= tl.subrange(i + 1, tl.len() as int));
        if let Some(v) = reg_line_value_exec(lines[i].as_str()) {
            return Some(v);
        }
        i = i + 1;
    }
    None
}

/// Reads the `PATH` entries out of the output of `reg query`.
pub fn registry_path_entries(output: &str) -> (r: Vec<String>)
    ensures
        views(r@) == registry_entries(output@),
{
    match registry_value(output) {
        Some(v) => {
            let pieces = split_on_char(&v, ';');
            trimmed_nonempty_exec(&pieces)
        }
        None => {
            let r: Vec<String> = Vec::new();
            assert(views(r@) =~= Seq::<Seq<char>>::empty());
            r
        }
    }
}

/// `str::to_lowercase`: the Unicode lower case of a text.
pub uninterp spec fn lowercase(s: Seq<char>) -> Seq<char>;

/// Lower-cases a text with `str::to_lowercase`; the result is named, not described.
#[verifier::external_body]
fn to_lowercase(s: &str) -> (r: String)
    ensures
        r@ == lowercase(s@),
{
    s.to_lowercase()
}

/// The lower-cased entries of a `PATH` value, without the empty ones.
pub open spec fn lowered_entries(pieces: Seq<Seq<char>>) -> Seq<Seq<char>>
    decreases pieces.len(),
{
    if pieces.len() == 0 {
        Seq::empty()
    } else {
        let rest = lowered_entries(pieces.drop_last());
        let l = lowercase(trim(pieces.last()));
        if l.len() > 0 { rest.push(l) } else { rest }
    }
}

/// The candidates whose lower case the current entries lack, in order.
pub open spec fn missing_entries(current: Seq<Seq<char>>, candidates: Seq<Seq<char>>) -> Seq<Seq<char>>
    decreases candidates.len(),
{
    if candidates.len() == 0 {
        Seq::empty()
    } else {
        let rest = missing_entries(current, candidates.drop_last());
        if current.contains(lowercase(candidates.last())) { rest } else { rest.push(candidates.last()) }
    }
}

/// The refreshed `PATH`: the current value, `;`, and the candidate entries
/// it lacks joined by `;`; none when it lacks none.
pub open spec fn refreshed_windows_path(current: Seq<char>, candidates: Seq<Seq<char>>) -> Option<Seq<char>> {
    let missing = missing_entries(lowered_entries(split_on(current, ';')), candidates);
    if missing.len() == 0 { None } else { Some(current + ";"@ + join(missing, ";"@)) }
}

fn contains_text(v: &Vec<String>, s: &String) -> (r: bool)
    ensures
        r == views(v@).contains(s@),
{
    let target = chars_of(s.as_str());
    let mut i: usize = 0;
    while i < v.len()
        invariant
            i <= v@.len(),
            target@ == s@,
            forall|k: int| 0 <= k < i ==> v@[k]@ != s@,
        decreases v@.len() - i,
    {
        let cur = chars_of(v[i].as_str());
        if crate::json::slices_equal(&cur, &target) {
            assert(views(v@)[i as int] == s@);
            return true;
        }
        i = i + 1;
    }
    assert(!views(v@).contains(s@)) by {
        if views(v@).contains(s@) {
            let k = choose|k: int| 0 <= k < views(v@).len() && views(v@)[k] == s@;
            assert(v@[k]@ == s@);
        }
    }
    false
}

/// The new `PATH` once the system entries, the user entries and the Node.js
/// manager directories (in that order) that the current `PATH` lacks are
/// appended; none when it lacks none of them.
pub fn merge_windows_path(current: &str, candidates: &Vec<String>) -> (r: Option<String>)
    ensures
        match r {
            Some(p) => refreshed_windows_path(current@, views(candidates@)) == Some(p@),
            None => refreshed_windows_path(current@, views(candidates@)) is None,
        },
{
    let cv = chars_of(current);
    let pieces = split_on_char(&cv, ';');
    let ghost pv = views(pieces@);
    let mut lowered: Vec<String> = Vec::new();
    let mut i: usize = 0;
    assert(pv.take(0) =~= Seq::<Seq<char>>::empty());
    while i < pieces.len()
        invariant
            i <= pieces@.len(),
            pv == views(pieces@),
            views(lowered@) == lowered_entries(pv.take(i as int)),
        decreases pieces@.len() - i,
    {
        assert(pv.take(i + 1).drop_last() =~= pv.take(i as int));
        assert(pv.take(i + 1).last() == pieces@[i as int]@);
        let t = crate::text::trim_str(pieces[i].as_str());
        let l = to_lowercase(t.as_str());
        if !l.as_str().is_empty() {
            let ghost before = views(lowered@);
            lowered.push(l);
            assert(views(lowered@) =~= before.push(lowered@[lowered@.len() - 1]@));
        }
        i = i + 1;
    }
    assert(pv.take(pieces@.len() as int) =~= pv);
    let ghost cur = views(lowered@);
    let mut missing: Vec<String> = Vec::new();
    let mut k: usize = 0;
    let ghost cands = views(candidates@);
    assert(cands.take(0) =~= Seq::<Seq<char>>::empty());
    while k < candidates.len()
        invariant
            k <= candidates@.len(),
            cands == views(candidates@),
            cur == views(lowered@),
            views(missing@) == missing_entries(cur, cands.take(k as int)),
        decreases candidates@.len() - k,
    {
        assert(cands.take(k + 1).drop_last() =~= cands.take(k as int));
        assert(cands.take(k + 1).last() == candidates@[k as int]@);
        let l = to_lowercase(candidates[k].as_str());
        if !contains_text(&lowered, &l) {
            let ghost before = views(missing@);
            missing.push(candidates[k].clone());
            assert(views(missing@) =~= before.push(candidates@[k as int]@));
        }
        k = k + 1;
    }
    assert(cands.take(candidates@.len() as int) =~= cands);
    if missing.len() == 0 {
        return None;
    }
    let joined = join_strings(&missing, ";");
    let mut out: Vec<char> = Vec::new();
    crate::text::push_str(&mut out, current);
    crate::text::push_str(&mut out, ";");
    crate::text::push_str(&mut out, joined.as_str());
    Some(string_from_chars(&out))
}

// ---------------------------------------------------------------------
// Refreshing twice
// ---------------------------------------------------------------------

/// Splitting `a`, the separator and `b` gives the pieces of `a` followed by those of `b`.
proof fn lemma_split_on_concat(a: Seq<char>, b: Seq<char>, c: char)
    ensures
        split_on(a + seq![c] + b, c) == split_on(a, c) + split_on(b, c),
    decreases b.len(),
{
    lemma_split_on_nonempty(a, c);
    if b.len() == 0 {
        assert(a + seq![c] + b =~= a + seq![c]);
        assert((a + seq![c]).drop_last() =~= a);
        assert(split_on(a, c) + split_on(b, c) =~= split_on(a, c).push(Seq::empty()));
    } else {
        let s = a + seq![c] + b;
        assert(s.drop_last() =~= a + seq![c] + b.drop_last());
        assert(s.last() == b.last());
        lemma_split_on_concat(a, b.drop_last(), c);
        lemma_split_on_nonempty(b.drop_last(), c);
        let left = split_on(a, c);
        let right = split_on(b.drop_last(), c);
        if b.last() == c {
            assert((left + right).push(Seq::empty()) =~= left + right.push(Seq::empty()));
        } else {
            assert((left + right).update((left + right).len() - 1, (left + right).last().push(b.last()))
                =~= left + right.update(right.len() - 1, right.last().push(b.last())));
        }
    }
}

/// Text without the separator is one piece.
proof fn lemma_split_on_single(s: Seq<char>, c: char)
    requires
        !s.contains(c),
    ensures
        split_on(s, c) == seq![s],
    decreases s.len(),
{
    if s.len() == 0 {
        assert(s =~= Seq::<char>::empty());
        assert(split_on(s, c) =~= seq![s]);
    } else {
        assert(!s.drop_last().contains(c)) by {
            if s.drop_last().contains(c) {
                let k = choose|k: int| 0 <= k < s.drop_last().len() && s.drop_last()[k] == c;
                assert(s[k] == c);
            }
        }
        lemma_split_on_single(s.drop_last(), c);
        assert(s.last() == s[s.len() - 1]);
        assert(s.drop_last().push(s.last()) =~= s);
        assert(seq![s.drop_last()].update(0, s.drop_last().push(s.last())) =~= seq![s]);
    }
}

/// Splitting entries joined by the separator gives the entries back.
proof fn lemma_split_on_join(parts: Seq<Seq<char>>, c: char)
    requires
        parts.len() >= 1,
        forall|i: int| 0 <= i < parts.len() ==> !(#[trigger] parts[i]).contains(c),
    ensures
        split_on(join(parts, seq![c]), c) == parts,
    decreases parts.len(),
{
    if parts.len() == 1 {
        lemma_split_on_single(parts[0], c);
        assert(seq![parts[0]] =~= parts);
    } else {
        let init = parts.drop_last();
        assert forall|i: int| 0 <= i < init.len() implies !(#[trigger] init[i]).contains(c) by {
            assert(init[i] == parts[i]);
        }
        lemma_split_on_join(init, c);
        lemma_split_on_concat(join(init, seq![c]), parts.last(), c);
        assert(!parts[parts.len() - 1].contains(c));
        lemma_split_on_single(parts.last(), c);
        assert(init + seq![parts.last()] =~= parts);
    }
}

/// Lowering the entries of two lists one after the other.
proof fn lemma_lowered_entries_concat(x: Seq<Seq<char>>, y: Seq<Seq<char>>)
    ensures
        lowered_entries(x + y) == lowered_entries(x) + lowered_entries(y),
    decreases y.len(),
{
    if y.len() == 0 {
        assert(x + y =~= x);
        assert(lowered_entries(x) + lowered_entries(y) =~= lowered_entries(x));
    } else {
        assert((x + y).drop_last() =~= x + y.drop_last());
        assert((x + y).last() == y.last());
        lemma_lowered_entries_concat(x, y.drop_last());
        let l = lowercase(trim(y.last()));
        if l.len() > 0 {
            assert((lowered_entries(x) + lowered_entries(y.drop_last())).push(l)
                =~= lowered_entries(x) + lowered_entries(y.drop_last()).push(l));
        }
    }
}

/// Each trimmed entry whose lower case is not empty has its lower case among the lowered entries.
proof fn lemma_lowered_entries_hold(parts: Seq<Seq<char>>, k: int)
    requires
        0 <= k < parts.len(),
        trim(parts[k]) == parts[k],
        lowercase(parts[k]).len() > 0,
    ensures
        lowered_entries(parts).contains(lowercase(parts[k])),
    decreases parts.len(),
{
    let rest = lowered_entries(parts.drop_last());
    if k == parts.len() - 1 {
        assert(lowered_entries(parts) == rest.push(lowercase(parts[k])));
        assert(lowered_entries(parts)[rest.len() as int] == lowercase(parts[k]));
    } else {
        assert(parts.drop_last()[k] == parts[k]);
        lemma_lowered_entries_hold(parts.drop_last(), k);
        let j = choose|j: int| 0 <= j < rest.len() && rest[j] == lowercase(parts[k]);
        let l = lowercase(trim(parts.last()));
        if l.len() > 0 {
            assert(lowered_entries(parts)[j] == rest[j]);
        }
    }
}

/// A candidate whose lower case the current entries lack is among the missing ones.
proof fn lemma_missing_entries_hold(current: Seq<Seq<char>>, candidates: Seq<Seq<char>>, k: int)
    requires
        0 <= k < candidates.len(),
        !current.contains(lowercase(candidates[k])),
    ensures
        missing_entries(current, candidates).contains(candidates[k]),
    decreases candidates.len(),
{
    let rest = missing_entries(current, candidates.drop_last());
    if k == candidates.len() - 1 {
        assert(missing_entries(current, candidates)[rest.len() as int] == candidates[k]);
    } else {
        assert(candidates.drop_last()[k] == candidates[k]);
        lemma_missing_entries_hold(current, candidates.drop_last(), k);
        let j = choose|j: int| 0 <= j < rest.len() && rest[j] == candidates[k];
        if !current.contains(lowercase(candidates.last())) {
            assert(missing_entries(current, candidates)[j] == rest[j]);
        }
    }
}

/// Every element of the missing entries is a candidate.
proof fn lemma_missing_entries_from(current: Seq<Seq<char>>, candidates: Seq<Seq<char>>, j: int)
    requires
        0 <= j < missing_entries(current, candidates).len(),
    ensures
        candidates.contains(missing_entries(current, candidates)[j]),
    decreases candidates.len(),
{
    let rest = missing_entries(current, candidates.drop_last());
    if j < rest.len() {
        lemma_missing_entries_from(current, candidates.drop_last(), j);
        let k = choose|k: int| 0 <= k < candidates.drop_last().len() && candidates.drop_last()[k] == rest[j];
        assert(candidates[k] == rest[j]);
    } else {
        assert(missing_entries(current, candidates)[j] == candidates[candidates.len() - 1]);
    }
}

/// No candidate is missing when the current entries hold the lower case of each.
proof fn lemma_missing_entries_none(current: Seq<Seq<char>>, candidates: Seq<Seq<char>>)
    requires
        forall|k: int| 0 <= k < candidates.len() ==> current.contains(lowercase(#[trigger] candidates[k])),
    ensures
        missing_entries(current, candidates).len() == 0,
    decreases candidates.len(),
{
    if candidates.len() > 0 {
        let init = candidates.drop_last();
        assert forall|k: int| 0 <= k < init.len() implies current.contains(lowercase(#[trigger] init[k])) by {
            assert(init[k] == candidates[k]);
        }
        lemma_missing_entries_none(current, init);
        assert(current.contains(lowercase(candidates[candidates.len() - 1])));
    }
}

/// Law: refreshing the `PATH` a second time with the same candidates adds
/// nothing, when each candidate is a trimmed entry without `;` whose lower
/// case is not empty (as the registry entries are).
pub proof fn lemma_refresh_settles(current: Seq<char>, candidates: Seq<Seq<char>>)
    requires
        forall|k: int| 0 <= k < candidates.len() ==> !(#[trigger] candidates[k]).contains(';'),
        forall|k: int| 0 <= k < candidates.len() ==> trim(#[trigger] candidates[k]) == candidates[k],
        forall|k: int| 0 <= k < candidates.len() ==> lowercase(#[trigger] candidates[k]).len() > 0,
    ensures
        match refreshed_windows_path(current, candidates) {
            Some(p) => refreshed_windows_path(p, candidates) is None,
            None => true,
        },
{
    let l1 = lowered_entries(split_on(current, ';'));
    let missing = missing_entries(l1, candidates);
    if missing.len() > 0 {
        let p = current + ";"@ + join(missing, ";"@);
        assert(";"@ == seq![';']) by {
            reveal_strlit(";");
        }
        assert forall|i: int| 0 <= i < missing.len() implies !(#[trigger] missing[i]).contains(';') by {
            lemma_missing_entries_from(l1, candidates, i);
            let k = choose|k: int| 0 <= k < candidates.len() && candidates[k] == missing[i];
            assert(!candidates[k].contains(';'));
        }
        lemma_split_on_join(missing, ';');
        lemma_split_on_concat(current, join(missing, seq![';']), ';');
        assert(p == current + seq![';'] + join(missing, seq![';']));
        lemma_lowered_entries_concat(split_on(current, ';'), missing);
        let l2 = lowered_entries(split_on(p, ';'));
        assert(l2 == l1 + lowered_entries(missing));
        assert forall|k: int| 0 <= k < candidates.len() implies l2.contains(lowercase(#[trigger] candidates[k])) by {
            if l1.contains(lowercase(candidates[k])) {
                let j = choose|j: int| 0 <= j < l1.len() && l1[j] == lowercase(candidates[k]);
                assert(l2[j] == l1[j]);
            } else {
                lemma_missing_entries_hold(l1, candidates, k);
                let i = choose|i: int| 0 <= i < missing.len() && missing[i] == candidates[k];
                lemma_lowered_entries_hold(missing, i);
                let j = choose|j: int| 0 <= j < lowered_entries(missing).len() && lowered_entries(missing)[j] == lowercase(candidates[k]);
                assert(l2[l1.len() + j] == lowered_entries(missing)[j]);
            }
        }
        lemma_missing_entries_none(l2, candidates);
    }
}

} // verus!
