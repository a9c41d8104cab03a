//! The agent hooks kept in the user's settings file: reading them,
//! replacing them, and registering the event reporter for every event the
//! monitor listens to.
use vstd::prelude::*;
use crate::json::{
    JsonValue, JsonModel, entries_get, json_get, json_as_str, entries_model, items_model, get, as_str,
    json_clone, object_of, array_of, string_value, entry, slices_equal,
};
use crate::process_log::str_views;
use crate::text::{chars_of, push_chars, push_str, push_decimal, string_from_chars, decimal};

verus! {

broadcast use vstd::string::group_string_axioms;

// ---------------------------------------------------------------------
// Object members
// ---------------------------------------------------------------------

/// The entries with the first entry named `key` given the value `v`, or
/// with `(key, v)` added at the end when there is none.
pub open spec fn upsert(entries: Seq<(Seq<char>, JsonModel)>, key: Seq<char>, v: JsonModel) -> Seq<(Seq<char>, JsonModel)>
    decreases entries.len(),
{
    if entries.len() == 0 {
        seq![(key, v)]
    } else if entries[0].0 == key {
        seq![(key, v)] + entries.drop_first()
    } else {
        seq![entries[0]] + upsert(entries.drop_first(), key, v)
    }
}

/// After an upsert, `key` holds `v` and every other key what it held.
pub proof fn lemma_get_after_upsert(entries: Seq<(Seq<char>, JsonModel)>, key: Seq<char>, v: JsonModel, k2: Seq<char>)
    ensures
        entries_get(upsert(entries, key, v), k2) == if k2 == key { Some(v) } else { entries_get(entries, k2) },
    decreases entries.len(),
{
    let u = upsert(entries, key, v);
    if entries.len() == 0 {
        assert(u == seq![(key, v)]);
        assert(u[0] == (key, v));
        assert(u.drop_first() =~= Seq::<(Seq<char>, JsonModel)>::empty());
        assert(entries_get(u.drop_first(), k2) is None);
    } else if entries[0].0 == key {
        assert(u[0] == (key, v));
        assert(u.drop_first() =~= entries.drop_first());
    } else {
        lemma_get_after_upsert(entries.drop_first(), key, v, k2);
        assert(u[0] == entries[0]);
        assert(u.drop_first() =~= upsert(entries.drop_first(), key, v));
    }
}

/// Upserting the value a key already holds changes nothing.
pub proof fn lemma_upsert_same(entries: Seq<(Seq<char>, JsonModel)>, key: Seq<char>, v: JsonModel)
    requires
        entries_get(entries, key) == Some(v),
    ensures
        upsert(entries, key, v) == entries,
    decreases entries.len(),
{
    if entries[0].0 == key {
        assert(seq![(key, v)] + entries.drop_first() =~= entries);
    } else {
        lemma_upsert_same(entries.drop_first(), key, v);
        assert(seq![entries[0]] + entries.drop_first() =~= entries);
    }
}

proof fn lemma_upsert_at(entries: Seq<(Seq<char>, JsonModel)>, key: Seq<char>, v: JsonModel, i: int)
    requires
        0 <= i < entries.len(),
        entries[i].0 == key,
        forall|j: int| 0 <= j < i ==> entries[j].0 != key,
    ensures
        upsert(entries, key, v) == entries.update(i, (key, v)),
    decreases i,
{
    if i == 0 {
        assert(seq![(key, v)] + entries.drop_first() =~= entries.update(0, (key, v)));
    } else {
        lemma_upsert_at(entries.drop_first(), key, v, i - 1);
        assert(seq![entries[0]] + entries.drop_first().update(i - 1, (key, v)) =~= entries.update(i, (key, v)));
    }
}

proof fn lemma_upsert_absent(entries: Seq<(Seq<char>, JsonModel)>, key: Seq<char>, v: JsonModel)
    requires
        forall|j: int| 0 <= j < entries.len() ==> entries[j].0 != key,
    ensures
        upsert(entries, key, v) == entries.push((key, v)),
    decreases entries.len(),
{
    if entries.len() == 0 {
        assert(seq![(key, v)] =~= entries.push((key, v)));
    } else {
        lemma_upsert_absent(entries.drop_first(), key, v);
        assert(seq![entries[0]] + entries.drop_first().push((key, v)) =~= entries.push((key, v)));
    }
}

/// Gives `key` the value `v` in an object's entries.
pub fn upsert_member(entries: Vec<(String, JsonValue)>, key: &str, v: JsonValue) -> (r: Vec<(String, JsonValue)>)
    ensures
        entries_model(r@) == upsert(entries_model(entries@), key@, v@),
{
    let k = chars_of(key);
    let ghost em = entries_model(entries@);
    let mut i: usize = 0;
    while i < entries.len()
        invariant
            i <= entries@.len() == em.len(),
            k@ == key@,
            em == entries_model(entries@),
            forall|j: int| 0 <= j < i ==> em[j].0 != key@,
        decreases entries@.len() - i,
    {
        let ek = chars_of(entries[i].0.as_str());
        if slices_equal(&ek, &k) {
            proof { lemma_upsert_at(em, key@, v@, i as int); }
            let mut out = entries;
            let ghost before = out@;
            out.set(i, (key.to_string(), v));
            assert(entries_model(out@) =~= em.update(i as int, (key@, v@)));
            return out;
        }
        i = i + 1;
    }
    proof { lemma_upsert_absent(em, key@, v@); }
    let mut out = entries;
    out.push((key.to_string(), v));
    assert(entries_model(out@) =~= em.push((key@, v@)));
    out
}

// ---------------------------------------------------------------------
// Hook blocks
// ---------------------------------------------------------------------

/// A block that applies to every tool: matcher `*` and a list of hooks.
pub open spec fn is_catch_all(b: JsonModel) -> bool {
    json_as_str(json_get(b, "matcher"@)) == Some("*"@) && json_get(b, "hooks"@) matches Some(JsonModel::Array(_))
}

/// Index of the first catch-all block.
pub open spec fn first_catch_all(blocks: Seq<JsonModel>) -> Option<int>
    decreases blocks.len(),
{
    if blocks.len() == 0 {
        None
    } else if is_catch_all(blocks[0]) {
        Some(0)
    } else {
        match first_catch_all(blocks.drop_first()) {
            Some(i) => Some(i + 1),
            None => None,
        }
    }
}

proof fn lemma_first_catch_all_at(blocks: Seq<JsonModel>, i: int)
    requires
        0 <= i < blocks.len(),
        is_catch_all(blocks[i]),
        forall|j: int| 0 <= j < i ==> !is_catch_all(blocks[j]),
    ensures
        first_catch_all(blocks) == Some(i),
    decreases i,
{
    if i > 0 {
        assert(!is_catch_all(blocks[0]));
        assert forall|j: int| 0 <= j < i - 1 implies !is_catch_all(#[trigger] blocks.drop_first()[j]) by {
            assert(blocks.drop_first()[j] == blocks[j + 1]);
        }
        lemma_first_catch_all_at(blocks.drop_first(), i - 1);
    }
}

proof fn lemma_first_catch_all_none(blocks: Seq<JsonModel>)
    requires
        forall|j: int| 0 <= j < blocks.len() ==> !is_catch_all(blocks[j]),
    ensures
        first_catch_all(blocks) is None,
    decreases blocks.len(),
{
    if blocks.len() > 0 {
        assert forall|j: int| 0 <= j < blocks.len() - 1 implies !is_catch_all(#[trigger] blocks.drop_first()[j]) by {
            assert(blocks.drop_first()[j] == blocks[j + 1]);
        }
        lemma_first_catch_all_none(blocks.drop_first());
    }
}

proof fn lemma_first_catch_all_is_first(blocks: Seq<JsonModel>)
    ensures
        first_catch_all(blocks) matches Some(i) ==> {
            &&& 0 <= i < blocks.len()
            &&& is_catch_all(blocks[i])
            &&& forall|j: int| 0 <= j < i ==> !is_catch_all(blocks[j])
        },
        first_catch_all(blocks) is None ==> forall|j: int| 0 <= j < blocks.len() ==> !is_catch_all(blocks[j]),
    decreases blocks.len(),
{
    if blocks.len() > 0 {
        lemma_first_catch_all_is_first(blocks.drop_first());
        if !is_catch_all(blocks[0]) {
            assert forall|j: int| 0 < j < blocks.len() implies blocks[j] == blocks.drop_first()[j - 1] by {}
        }
    }
}

/// The hooks of a block.
pub open spec fn hook_items(b: JsonModel) -> Seq<JsonModel> {
    match json_get(b, "hooks"@) {
        Some(JsonModel::Array(items)) => items,
        _ => Seq::empty(),
    }
}

/// The hook that runs `command`: `{"type": "command", "command": <command>}`.
pub open spec fn command_item(command: Seq<char>) -> JsonModel {
    JsonModel::Object(seq![("type"@, JsonModel::Str("command"@)), ("command"@, JsonModel::Str(command))])
}

/// A hook that runs `command`.
pub open spec fn runs_command(item: JsonModel, command: Seq<char>) -> bool {
    json_as_str(json_get(item, "type"@)) == Some("command"@) && json_as_str(json_get(item, "command"@)) == Some(command)
}

/// Some hook runs `command`.
pub open spec fn has_command(items: Seq<JsonModel>, command: Seq<char>) -> bool {
    exists|k: int| 0 <= k < items.len() && runs_command(#[trigger] items[k], command)
}

/// A block with its hooks replaced.
pub open spec fn with_hooks(b: JsonModel, items: Seq<JsonModel>) -> JsonModel {
    match b {
        JsonModel::Object(e) => JsonModel::Object(upsert(e, "hooks"@, JsonModel::Array(items))),
        _ => b,
    }
}

/// A catch-all block with the one hook that runs `command`.
pub open spec fn catch_all_block(command: Seq<char>) -> JsonModel {
    JsonModel::Object(seq![("matcher"@, JsonModel::Str("*"@)), ("hooks"@, JsonModel::Array(seq![command_item(command)]))])
}

/// The blocks of an event once `command` is registered, and whether it was
/// added: the first catch-all block gets the hook unless it already has it;
/// without a catch-all block, one is added with the hook.
pub open spec fn merge_blocks(blocks: Seq<JsonModel>, command: Seq<char>) -> (Seq<JsonModel>, bool) {
    match first_catch_all(blocks) {
        Some(i) => if has_command(hook_items(blocks[i]), command) {
            (blocks, false)
        } else {
            (blocks.update(i, with_hooks(blocks[i], hook_items(blocks[i]).push(command_item(command)))), true)
        },
        None => (blocks.push(catch_all_block(command)), true),
    }
}

proof fn lemma_keys_distinct()
    ensures
        "matcher"@ != "hooks"@,
        "type"@ != "command"@,
{
    reveal_strlit("matcher");
    reveal_strlit("hooks");
    reveal_strlit("type");
    reveal_strlit("command");
    assert("matcher"@.len() == 7);
    assert("hooks"@.len() == 5);
    assert("type"@.len() == 4);
    assert("command"@.len() == 7);
}

proof fn lemma_command_item_runs(command: Seq<char>)
    ensures
        runs_command(command_item(command), command),
{
    lemma_keys_distinct();
    reveal_with_fuel(entries_get, 3);
    let e = seq![("type"@, JsonModel::Str("command"@)), ("command"@, JsonModel::Str(command))];
    assert(e.drop_first() =~= seq![("command"@, JsonModel::Str(command))]);
    assert(e.drop_first().drop_first() =~= Seq::<(Seq<char>, JsonModel)>::empty());
}

/// Law: registering a command in blocks that already have it registered changes nothing.
pub proof fn lemma_merge_blocks_settles(blocks: Seq<JsonModel>, command: Seq<char>)
    ensures
        merge_blocks(merge_blocks(blocks, command).0, command) == (merge_blocks(blocks, command).0, false),
{
    lemma_keys_distinct();
    lemma_first_catch_all_is_first(blocks);
    lemma_command_item_runs(command);
    let b2 = merge_blocks(blocks, command).0;
    match first_catch_all(blocks) {
        Some(i) => {
            if !has_command(hook_items(blocks[i]), command) {
                let items2 = hook_items(blocks[i]).push(command_item(command));
                let nb = with_hooks(blocks[i], items2);
                let e = blocks[i]->Object_0;
                lemma_get_after_upsert(e, "hooks"@, JsonModel::Array(items2), "matcher"@);
                lemma_get_after_upsert(e, "hooks"@, JsonModel::Array(items2), "hooks"@);
                assert(is_catch_all(nb));
                assert forall|j: int| 0 <= j < i implies !is_catch_all(#[trigger] b2[j]) by {
                    assert(b2[j] == blocks[j]);
                }
                lemma_first_catch_all_at(b2, i);
                assert(hook_items(b2[i]) == items2);
                assert(runs_command(items2[items2.len() - 1], command));
                assert(has_command(items2, command));
            }
        },
        None => {
            let cb = catch_all_block(command);
            reveal_with_fuel(entries_get, 3);
            let e = seq![("matcher"@, JsonModel::Str("*"@)), ("hooks"@, JsonModel::Array(seq![command_item(command)]))];
            assert(e.drop_first() =~= seq![("hooks"@, JsonModel::Array(seq![command_item(command)]))]);
            assert(is_catch_all(cb));
            assert forall|j: int| 0 <= j < blocks.len() implies !is_catch_all(#[trigger] b2[j]) by {
                assert(b2[j] == blocks[j]);
            }
            lemma_first_catch_all_at(b2, blocks.len() as int);
            let items2 = seq![command_item(command)];
            assert(hook_items(cb) == items2);
            assert(runs_command(items2[0], command));
            assert(has_command(items2, command));
        },
    }
}

// ---------------------------------------------------------------------
// Events
// ---------------------------------------------------------------------

/// The events the monitor registers its reporter for.
pub open spec fn target_events() -> Seq<Seq<char>> {
    seq![
        "PermissionRequest"@,
        "Notification"@,
        "Stop"@,
        "SubagentStop"@,
        "SessionStart"@,
        "SessionEnd"@,
        "PreToolUse"@,
        "PostToolUse"@,
        "UserPromptSubmit"@,
    ]
}

/// The events the monitor registers its reporter for.
pub fn target_event_names() -> (r: Vec<&'static str>)
    ensures
        str_views(r@) == target_events(),
{
    let mut v: Vec<&'static str> = Vec::new();
    v.push("PermissionRequest");
    v.push("Notification");
    v.push("Stop");
    v.push("SubagentStop");
    v.push("SessionStart");
    v.push("SessionEnd");
    v.push("PreToolUse");
    v.push("PostToolUse");
    v.push("UserPromptSubmit");
    assert(str_views(v@) =~= target_events());
    v
}

/// The hooks of the settings once `command` is registered for `event`, and
/// whether it was added; the event's value must be a list.
pub open spec fn merge_event(hooks: Seq<(Seq<char>, JsonModel)>, event: Seq<char>, command: Seq<char>)
    -> Result<(Seq<(Seq<char>, JsonModel)>, bool), Seq<char>>
{
    let current = match entries_get(hooks, event) {
        Some(v) => v,
        None => JsonModel::Array(Seq::empty()),
    };
    match current {
        JsonModel::Array(blocks) => {
            let (b2, added) = merge_blocks(blocks, command);
            Ok((upsert(hooks, event, JsonModel::Array(b2)), added))
        },
        _ => Err("hooks."@ + event + " is not a JSON array"@),
    }
}

/// The hooks once `command` is registered for each event in turn, and how
/// many registrations were added; the first failure stops.
pub open spec fn merge_events(hooks: Seq<(Seq<char>, JsonModel)>, events: Seq<Seq<char>>, command: Seq<char>)
    -> Result<(Seq<(Seq<char>, JsonModel)>, nat), Seq<char>>
    decreases events.len(),
{
    if events.len() == 0 {
        Ok((hooks, 0))
    } else {
        match merge_event(hooks, events[0], command) {
            Err(e) => Err(e),
            Ok((h1, added)) => match merge_events(h1, events.drop_first(), command) {
                Err(e) => Err(e),
                Ok((h2, n)) => Ok((h2, n + if added { 1nat } else { 0nat })),
            },
        }
    }
}

/// The settings once the reporter `command` is registered for every target
/// event, and how many registrations were added: the settings must be an
/// object, and their `hooks` (added when missing) an object too.
pub open spec fn init_hooks_model(settings: JsonModel, command: Seq<char>) -> Result<(JsonModel, nat), Seq<char>> {
    match settings {
        JsonModel::Object(root) => {
            let hooks = match entries_get(root, "hooks"@) {
                Some(h) => h,
                None => JsonModel::Object(Seq::empty()),
            };
            match hooks {
                JsonModel::Object(h) => match merge_events(h, target_events(), command) {
                    Ok((h2, n)) => Ok((JsonModel::Object(upsert(root, "hooks"@, JsonModel::Object(h2))), n)),
                    Err(e) => Err(e),
                },
                _ => Err("settings.hooks is not a JSON object"@),
            }
        },
        _ => Err("settings root is not a JSON object"@),
    }
}

/// The command is registered for the event and registering it again changes nothing.
pub open spec fn settled(hooks: Seq<(Seq<char>, JsonModel)>, event: Seq<char>, command: Seq<char>) -> bool {
    entries_get(hooks, event) matches Some(JsonModel::Array(b)) && merge_blocks(b, command) == (b, false)
}

proof fn lemma_merge_event_effect(hooks: Seq<(Seq<char>, JsonModel)>, event: Seq<char>, command: Seq<char>)
    requires
        merge_event(hooks, event, command) is Ok,
    ensures
        settled(merge_event(hooks, event, command)->Ok_0.0, event, command),
        forall|k: Seq<char>| k != event ==> #[trigger] entries_get(merge_event(hooks, event, command)->Ok_0.0, k) == entries_get(hooks, k),
{
    let current = match entries_get(hooks, event) {
        Some(v) => v,
        None => JsonModel::Array(Seq::empty()),
    };
    let blocks = current->Array_0;
    let b2 = merge_blocks(blocks, command).0;
    lemma_merge_blocks_settles(blocks, command);
    lemma_get_after_upsert(hooks, event, JsonModel::Array(b2), event);
    assert forall|k: Seq<char>| k != event implies #[trigger] entries_get(merge_event(hooks, event, command)->Ok_0.0, k) == entries_get(hooks, k) by {
        lemma_get_after_upsert(hooks, event, JsonModel::Array(b2), k);
    }
}

proof fn lemma_merge_events_keeps_others(hooks: Seq<(Seq<char>, JsonModel)>, events: Seq<Seq<char>>, command: Seq<char>, k: Seq<char>)
    requires
        merge_events(hooks, events, command) is Ok,
        !events.contains(k),
    ensures
        entries_get(merge_events(hooks, events, command)->Ok_0.0, k) == entries_get(hooks, k),
    decreases events.len(),
{
    if events.len() > 0 {
        lemma_merge_event_effect(hooks, events[0], command);
        let h1 = merge_event(hooks, events[0], command)->Ok_0.0;
        assert(events[0] != k);
        assert(!events.drop_first().contains(k)) by {
            if events.drop_first().contains(k) {
                let j = choose|j: int| 0 <= j < events.drop_first().len() && events.drop_first()[j] == k;
                assert(events[j + 1] == k);
            }
        }
        lemma_merge_events_keeps_others(h1, events.drop_first(), command, k);
    }
}

proof fn lemma_merge_events_settles(hooks: Seq<(Seq<char>, JsonModel)>, events: Seq<Seq<char>>, command: Seq<char>)
    requires
        merge_events(hooks, events, command) is Ok,
        events.no_duplicates(),
    ensures
        forall|j: int| 0 <= j < events.len() ==> settled(merge_events(hooks, events, command)->Ok_0.0, #[trigger] events[j], command),
    decreases events.len(),
{
    if events.len() > 0 {
        let e0 = events[0];
        let rest = events.drop_first();
        lemma_merge_event_effect(hooks, e0, command);
        let h1 = merge_event(hooks, e0, command)->Ok_0.0;
        assert(rest.no_duplicates()) by {
            assert forall|a: int, b: int| 0 <= a < rest.len() && 0 <= b < rest.len() && a != b implies rest[a] != rest[b] by {
                assert(rest[a] == events[a + 1]);
                assert(rest[b] == events[b + 1]);
            }
        }
        lemma_merge_events_settles(h1, rest, command);
        assert(!rest.contains(e0)) by {
            if rest.contains(e0) {
                let j = choose|j: int| 0 <= j < rest.len() && rest[j] == e0;
                assert(events[j + 1] == events[0]);
            }
        }
        lemma_merge_events_keeps_others(h1, rest, command, e0);
        let h2 = merge_events(hooks, events, command)->Ok_0.0;
        assert forall|j: int| 0 <= j < events.len() implies settled(h2, #[trigger] events[j], command) by {
            if j > 0 {
                assert(events[j] == rest[j - 1]);
            }
        }
    }
}

proof fn lemma_merge_events_settled_noop(hooks: Seq<(Seq<char>, JsonModel)>, events: Seq<Seq<char>>, command: Seq<char>)
    requires
        forall|j: int| 0 <= j < events.len() ==> settled(hooks, #[trigger] events[j], command),
    ensures
        merge_events(hooks, events, command) == Ok::<(Seq<(Seq<char>, JsonModel)>, nat), Seq<char>>((hooks, 0)),
    decreases events.len(),
{
    if events.len() > 0 {
        assert(settled(hooks, events[0], command));
        let b = entries_get(hooks, events[0])->Some_0->Array_0;
        lemma_upsert_same(hooks, events[0], JsonModel::Array(b));
        assert(merge_event(hooks, events[0], command) == Ok::<(Seq<(Seq<char>, JsonModel)>, bool), Seq<char>>((hooks, false)));
        assert forall|j: int| 0 <= j < events.drop_first().len() implies settled(hooks, #[trigger] events.drop_first()[j], command) by {
            assert(events.drop_first()[j] == events[j + 1]);
        }
        lemma_merge_events_settled_noop(hooks, events.drop_first(), command);
    }
}

proof fn lemma_target_events_distinct()
    ensures
        target_events().no_duplicates(),
{
    reveal_strlit("PermissionRequest");
    reveal_strlit("Notification");
    reveal_strlit("Stop");
    reveal_strlit("SubagentStop");
    reveal_strlit("SessionStart");
    reveal_strlit("SessionEnd");
    reveal_strlit("PreToolUse");
    reveal_strlit("PostToolUse");
    reveal_strlit("UserPromptSubmit");
    let t = target_events();
    assert(t[0].len() == 17);
    assert(t[1].len() == 12);
    assert(t[2].len() == 4);
    assert(t[3].len() == 12);
    assert(t[4].len() == 12);
    assert(t[5].len() == 10);
    assert(t[6].len() == 10);
    assert(t[7].len() == 11);
    assert(t[8].len() == 16);
    assert(t[1][0] != t[3][0]);
    assert(t[1][0] != t[4][0]);
    assert(t[3][1] != t[4][1]);
    assert(t[5][0] != t[6][0]);
}

/// Law: registering the reporter is idempotent: once it succeeded, doing
/// it again on the result adds nothing and leaves the settings unchanged.
pub proof fn lemma_init_hooks_idempotent(settings: JsonModel, command: Seq<char>)
    requires
        init_hooks_model(settings, command) is Ok,
    ensures
        init_hooks_model(init_hooks_model(settings, command)->Ok_0.0, command)
            == Ok::<(JsonModel, nat), Seq<char>>((init_hooks_model(settings, command)->Ok_0.0, 0)),
{
    lemma_target_events_distinct();
    let root = settings->Object_0;
    let h = match entries_get(root, "hooks"@) {
        Some(x) => x,
        None => JsonModel::Object(Seq::empty()),
    }->Object_0;
    let h2 = merge_events(h, target_events(), command)->Ok_0.0;
    lemma_merge_events_settles(h, target_events(), command);
    lemma_merge_events_settled_noop(h2, target_events(), command);
    let root1 = upsert(root, "hooks"@, JsonModel::Object(h2));
    lemma_get_after_upsert(root, "hooks"@, JsonModel::Object(h2), "hooks"@);
    lemma_upsert_same(root1, "hooks"@, JsonModel::Object(h2));
}

/// The command is registered for the event: the event's blocks hold a
/// catch-all block, and the first one has a hook running the command.
pub open spec fn registered(hooks: Seq<(Seq<char>, JsonModel)>, event: Seq<char>, command: Seq<char>) -> bool {
    &&& entries_get(hooks, event) matches Some(JsonModel::Array(b))
    &&& first_catch_all(b) matches Some(i)
    &&& has_command(hook_items(b[i]), command)
}

/// How many of the events lack the command.
pub open spec fn lacking_count(hooks: Seq<(Seq<char>, JsonModel)>, events: Seq<Seq<char>>, command: Seq<char>) -> nat
    decreases events.len(),
{
    if events.len() == 0 {
        0
    } else {
        (if registered(hooks, events[0], command) { 0nat } else { 1nat }) + lacking_count(hooks, events.drop_first(), command)
    }
}

proof fn lemma_lacking_count_same(
    h: Seq<(Seq<char>, JsonModel)>,
    h1: Seq<(Seq<char>, JsonModel)>,
    events: Seq<Seq<char>>,
    command: Seq<char>,
)
    requires
        forall|j: int| 0 <= j < events.len() ==> entries_get(h1, #[trigger] events[j]) == entries_get(h, events[j]),
    ensures
        lacking_count(h1, events, command) == lacking_count(h, events, command),
    decreases events.len(),
{
    if events.len() > 0 {
        assert(entries_get(h1, events[0]) == entries_get(h, events[0]));
        assert forall|j: int| 0 <= j < events.drop_first().len()
            implies entries_get(h1, #[trigger] events.drop_first()[j]) == entries_get(h, events.drop_first()[j]) by {
            assert(events.drop_first()[j] == events[j + 1]);
        }
        lemma_lacking_count_same(h, h1, events.drop_first(), command);
    }
}

proof fn lemma_merge_event_added(hooks: Seq<(Seq<char>, JsonModel)>, event: Seq<char>, command: Seq<char>)
    requires
        merge_event(hooks, event, command) is Ok,
    ensures
        merge_event(hooks, event, command)->Ok_0.1 == !registered(hooks, event, command),
{
    let current = match entries_get(hooks, event) {
        Some(v) => v,
        None => JsonModel::Array(Seq::empty()),
    };
    let blocks = current->Array_0;
    if entries_get(hooks, event) is None {
        assert(first_catch_all(blocks) is None);
    }
}

proof fn lemma_merge_events_count(hooks: Seq<(Seq<char>, JsonModel)>, events: Seq<Seq<char>>, command: Seq<char>)
    requires
        merge_events(hooks, events, command) is Ok,
        events.no_duplicates(),
    ensures
        merge_events(hooks, events, command)->Ok_0.1 == lacking_count(hooks, events, command),
    decreases events.len(),
{
    if events.len() > 0 {
        let e0 = events[0];
        let rest = events.drop_first();
        lemma_merge_event_effect(hooks, e0, command);
        lemma_merge_event_added(hooks, e0, command);
        let h1 = merge_event(hooks, e0, command)->Ok_0.0;
        assert(rest.no_duplicates()) by {
            assert forall|a: int, b: int| 0 <= a < rest.len() && 0 <= b < rest.len() && a != b implies rest[a] != rest[b] by {
                assert(rest[a] == events[a + 1]);
                assert(rest[b] == events[b + 1]);
            }
        }
        lemma_merge_events_count(h1, rest, command);
        assert forall|j: int| 0 <= j < rest.len() implies entries_get(h1, #[trigger] rest[j]) == entries_get(hooks, rest[j]) by {
            assert(rest[j] == events[j + 1]);
            assert(rest[j] != e0);
        }
        lemma_lacking_count_same(hooks, h1, rest, command);
    }
}

/// Law: once the reporter is registered, every target event has a
/// catch-all block whose hooks run the command; the number reported as
/// added is the number of target events that lacked it; the other hook
/// events and the other members of the settings are kept.
pub proof fn lemma_init_hooks_registers(settings: JsonModel, command: Seq<char>)
    requires
        init_hooks_model(settings, command) is Ok,
    ensures
        forall|j: int| 0 <= j < target_events().len()
            ==> registered(hook_events(init_hooks_model(settings, command)->Ok_0.0), #[trigger] target_events()[j], command),
        init_hooks_model(settings, command)->Ok_0.1 == lacking_count(hook_events(settings), target_events(), command),
        forall|k: Seq<char>| !target_events().contains(k)
            ==> #[trigger] entries_get(hook_events(init_hooks_model(settings, command)->Ok_0.0), k)
                == entries_get(hook_events(settings), k),
        forall|k: Seq<char>| k != "hooks"@
            ==> #[trigger] json_get(init_hooks_model(settings, command)->Ok_0.0, k) == json_get(settings, k),
{
    lemma_target_events_distinct();
    let root = settings->Object_0;
    let h = match entries_get(root, "hooks"@) {
        Some(x) => x,
        None => JsonModel::Object(Seq::empty()),
    }->Object_0;
    assert(hook_events(settings) == h);
    let h2 = merge_events(h, target_events(), command)->Ok_0.0;
    lemma_get_after_upsert(root, "hooks"@, JsonModel::Object(h2), "hooks"@);
    assert(hook_events(init_hooks_model(settings, command)->Ok_0.0) == h2);
    lemma_merge_events_settles(h, target_events(), command);
    assert forall|j: int| 0 <= j < target_events().len()
        implies registered(h2, #[trigger] target_events()[j], command) by {
        let e = target_events()[j];
        assert(settled(h2, e, command));
        let b = entries_get(h2, e)->Some_0->Array_0;
        assert(merge_blocks(b, command) == (b, false));
    }
    lemma_merge_events_count(h, target_events(), command);
    assert forall|k: Seq<char>| !target_events().contains(k)
        implies #[trigger] entries_get(h2, k) == entries_get(h, k) by {
        lemma_merge_events_keeps_others(h, target_events(), command, k);
    }
    assert forall|k: Seq<char>| k != "hooks"@
        implies #[trigger] json_get(init_hooks_model(settings, command)->Ok_0.0, k) == json_get(settings, k) by {
        lemma_get_after_upsert(root, "hooks"@, JsonModel::Object(h2), k);
    }
}

// ---------------------------------------------------------------------
// Registering the reporter
// ---------------------------------------------------------------------

/// The member `key` among an object's entries, by reference.
pub fn entries_lookup<'a>(entries: &'a Vec<(String, JsonValue)>, key: &str) -> (r: Option<&'a JsonValue>)
    ensures
        match r {
            Some(x) => entries_get(entries_model(entries@), key@) == Some(x@),
            None => entries_get(entries_model(entries@), key@) is None,
        },
{
    let k = chars_of(key);
    let n = entries.len();
    let ghost es = entries_model(entries@);
    assert(es.subrange(0, n as int) =~= es);
    let mut i: usize = 0;
    while i < n
        invariant
            n == entries@.len() == es.len(),
            i <= n,
            k@ == key@,
            es == entries_model(entries@),
            entries_get(es, key@) == entries_get(es.subrange(i as int, n as int), key@),
        decreases n - i,
    {
        let ek = chars_of(entries[i].0.as_str());
        assert(es.subrange(i as int, n as int)[0] == es[i as int]);
        if slices_equal(&ek, &k) {
            return Some(&entries[i].1);
        }
        assert(es.subrange(i as int, n as int).drop_first() =~= es.subrange(i + 1, n as int));
        i = i + 1;
    }
    None
}

fn str_is(v: Option<&JsonValue>, expected: &str) -> (r: bool)
    ensures
        r == (json_as_str(crate::json::opt_model(v)) == Some(expected@)),
{
    match as_str(v) {
        Some(s) => {
            let a = chars_of(s.as_str());
            let b = chars_of(expected);
            slices_equal(&a, &b)
        }
        None => false,
    }
}

fn is_catch_all_block(b: &JsonValue) -> (r: bool)
    ensures
        r == is_catch_all(b@),
{
    let matcher = str_is(get(b, "matcher"), "*");
    let hooks_is_array = match get(b, "hooks") {
        Some(JsonValue::Array(_)) => true,
        _ => false,
    };
    matcher && hooks_is_array
}

fn clone_items(items: &Vec<JsonValue>) -> (r: Vec<JsonValue>)
    ensures
        items_model(r@) == items_model(items@),
{
    let mut r: Vec<JsonValue> = Vec::new();
    let mut i: usize = 0;
    while i < items.len()
        invariant
            i <= items@.len(),
            items_model(r@) == items_model(items@).take(i as int),
        decreases items@.len() - i,
    {
        let ghost before = r@;
        r.push(json_clone(&items[i]));
        assert(items_model(r@) =~= items_model(before).push(items@[i as int]@));
        i = i + 1;
        assert(items_model(r@) =~= items_model(items@).take(i as int));
    }
    assert(items_model(items@).take(items@.len() as int) =~= items_model(items@));
    r
}

fn hook_items_of(b: &JsonValue) -> (r: Vec<JsonValue>)
    ensures
        items_model(r@) == hook_items(b@),
{
    match get(b, "hooks") {
        Some(JsonValue::Array(items)) => {
            let r = clone_items(items);
            assert(JsonValue::Array(*items)@->Array_0 =~= items_model(items@));
            r
        }
        _ => {
            let r: Vec<JsonValue> = Vec::new();
            assert(items_model(r@) =~= Seq::<JsonModel>::empty());
            r
        }
    }
}

fn has_command_in(items: &Vec<JsonValue>, command: &str) -> (r: bool)
    ensures
        r == has_command(items_model(items@), command@),
{
    let mut i: usize = 0;
    while i < items.len()
        invariant
            i <= items@.len(),
            forall|k: int| 0 <= k < i ==> !runs_command(#[trigger] items_model(items@)[k], command@),
        decreases items@.len() - i,
    {
        let runs = str_is(get(&items[i], "type"), "command") && str_is(get(&items[i], "command"), command);
        assert(items_model(items@)[i as int] == items@[i as int]@);
        if runs {
            assert(runs_command(items_model(items@)[i as int], command@));
            return true;
        }
        i = i + 1;
    }
    false
}

fn command_item_value(command: &str) -> (r: JsonValue)
    ensures
        r@ == command_item(command@),
{
    let mut e: Vec<(String, JsonValue)> = Vec::new();
    e.push(entry("type", string_value("command")));
    e.push(entry("command", string_value(command)));
    let r = object_of(e);
    assert(r@->Object_0 =~= command_item(command@)->Object_0);
    r
}

fn with_hooks_value(b: JsonValue, items: Vec<JsonValue>) -> (r: JsonValue)
    ensures
        r@ == with_hooks(b@, items_model(items@)),
{
    match b {
        JsonValue::Object(e) => {
            let ghost em = entries_model(e@);
            assert(JsonValue::Object(e)@->Object_0 =~= em);
            let list = array_of(items);
            let e2 = upsert_member(e, "hooks", list);
            object_of(e2)
        }
        other => other,
    }
}

fn catch_all_block_value(command: &str) -> (r: JsonValue)
    ensures
        r@ == catch_all_block(command@),
{
    let mut hooks: Vec<JsonValue> = Vec::new();
    hooks.push(command_item_value(command));
    let list = array_of(hooks);
    assert(list@->Array_0 =~= seq![command_item(command@)]);
    let mut e: Vec<(String, JsonValue)> = Vec::new();
    e.push(entry("matcher", string_value("*")));
    e.push(entry("hooks", list));
    let r = object_of(e);
    assert(r@->Object_0 =~= catch_all_block(command@)->Object_0);
    r
}

/// Registers `command` in an event's blocks; tells whether it was added.
pub fn merge_blocks_exec(blocks: Vec<JsonValue>, command: &str) -> (r: (Vec<JsonValue>, bool))
    ensures
        (items_model(r.0@), r.1) == merge_blocks(items_model(blocks@), command@),
{
    let ghost bm = items_model(blocks@);
    let mut i: usize = 0;
    while i < blocks.len()
        invariant
            i <= blocks@.len(),
            bm == items_model(blocks@),
            forall|j: int| 0 <= j < i ==> !is_catch_all(#[trigger] bm[j]),
        decreases blocks@.len() - i,
    {
        if is_catch_all_block(&blocks[i]) {
            proof { lemma_first_catch_all_at(bm, i as int); }
            let items = hook_items_of(&blocks[i]);
            if has_command_in(&items, command) {
                return (blocks, false);
            }
            let mut items2 = items;
            let ghost it0 = items_model(items2@);
            items2.push(command_item_value(command));
            assert(items_model(items2@) =~= it0.push(command_item(command@)));
            let mut out = blocks;
            let old_block = json_clone(&out[i]);
            let nb = with_hooks_value(old_block, items2);
            out.set(i, nb);
            assert(items_model(out@) =~= bm.update(i as int, with_hooks(bm[i as int], it0.push(command_item(command@)))));
            return (out, true);
        }
        i = i + 1;
    }
    proof { lemma_first_catch_all_none(bm); }
    let mut out = blocks;
    out.push(catch_all_block_value(command));
    assert(items_model(out@) =~= bm.push(catch_all_block(command@)));
    (out, true)
}

/// Registers `command` for one event in the hooks object's entries.
pub fn merge_event_exec(hooks: Vec<(String, JsonValue)>, event: &str, command: &str)
    -> (r: Result<(Vec<(String, JsonValue)>, bool), String>)
    ensures
        match merge_event(entries_model(hooks@), event@, command@) {
            Ok((h, added)) => r matches Ok((v, a)) && entries_model(v@) == h && a == added,
            Err(e) => r matches Err(msg) && msg@ == e,
        },
{
    let current: Option<Vec<JsonValue>> = match entries_lookup(&hooks, event) {
        Some(JsonValue::Array(blocks)) => {
            let c = clone_items(blocks);
            assert(JsonValue::Array(*blocks)@->Array_0 =~= items_model(blocks@));
            Some(c)
        }
        Some(_) => None,
        None => {
            let c: Vec<JsonValue> = Vec::new();
            assert(items_model(c@) =~= Seq::<JsonModel>::empty());
            Some(c)
        }
    };
    match current {
        Some(blocks) => {
            let (b2, added) = merge_blocks_exec(blocks, command);
            let list = array_of(b2);
            Ok((upsert_member(hooks, event, list), added))
        }
        None => {
            let mut m: Vec<char> = Vec::new();
            push_str(&mut m, "hooks.");
            push_str(&mut m, event);
            push_str(&mut m, " is not a JSON array");
            Err(string_from_chars(&m))
        }
    }
}

/// Registers the reporter `command` for every target event in the user's
/// settings; returns the new settings and how many registrations were added.
pub fn init_hooks(settings: JsonValue, command: &str) -> (r: Result<(JsonValue, u32), String>)
    ensures
        match init_hooks_model(settings@, command@) {
            Ok((m, n)) => r matches Ok((v, c)) && v@ == m && c == n,
            Err(e) => r matches Err(msg) && msg@ == e,
        },
{
    let root = match settings {
        JsonValue::Object(root) => root,
        _ => return Err("settings root is not a JSON object".to_string()),
    };
    let ghost rm = entries_model(root@);
    assert(settings@->Object_0 =~= rm);
    let hooks: Vec<(String, JsonValue)> = match entries_lookup(&root, "hooks") {
        Some(JsonValue::Object(h)) => {
            let mut c: Vec<(String, JsonValue)> = Vec::new();
            let mut i: usize = 0;
            while i < h.len()
                invariant
                    i <= h@.len(),
                    entries_model(c@) == entries_model(h@).take(i as int),
                decreases h@.len() - i,
            {
                let ghost before = c@;
                let key = h[i].0.clone();
                let value = json_clone(&h[i].1);
                assert(key@ == h@[i as int].0@);
                c.push((key, value));
                assert(entries_model(c@) =~= entries_model(before).push((h@[i as int].0@, h@[i as int].1@)));
                i = i + 1;
                assert(entries_model(c@) =~= entries_model(h@).take(i as int));
            }
            assert(entries_model(h@).take(h@.len() as int) =~= entries_model(h@));
            assert(JsonValue::Object(*h)@->Object_0 =~= entries_model(h@));
            c
        }
        Some(_) => return Err("settings.hooks is not a JSON object".to_string()),
        None => {
            let c: Vec<(String, JsonValue)> = Vec::new();
            assert(entries_model(c@) =~= Seq::<(Seq<char>, JsonModel)>::empty());
            c
        }
    };
    let events = target_event_names();
    let ghost te = target_events();
    let ghost h0 = entries_model(hooks@);
    let ghost whole = init_hooks_model(settings@, command@);
    assert(whole == match merge_events(h0, te, command@) {
        Ok((h2, n)) => Ok::<(JsonModel, nat), Seq<char>>((JsonModel::Object(upsert(rm, "hooks"@, JsonModel::Object(h2))), n)),
        Err(e) => Err(e),
    });
    let mut h = hooks;
    let mut added: u32 = 0;
    let mut k: usize = 0;
    assert(te.skip(0) =~= te);
    while k < events.len()
        invariant
            k <= events@.len() == te.len() == 9,
            str_views(events@) == te,
            te == target_events(),
            added <= k,
            whole == init_hooks_model(settings@, command@),
            whole == match merge_events(h0, te, command@) {
                Ok((h2, n)) => Ok::<(JsonModel, nat), Seq<char>>((JsonModel::Object(upsert(rm, "hooks"@, JsonModel::Object(h2))), n)),
                Err(e) => Err(e),
            },
            merge_events(h0, te, command@) == match merge_events(entries_model(h@), te.skip(k as int), command@) {
                Ok((h2, n)) => Ok::<(Seq<(Seq<char>, JsonModel)>, nat), Seq<char>>((h2, (n + added) as nat)),
                Err(e) => Err(e),
            },
        decreases events@.len() - k,
    {
        let ghost rest = te.skip(k as int);
        assert(rest[0] == events@[k as int]@);
        assert(rest.drop_first() =~= te.skip(k + 1));
        match merge_event_exec(h, events[k], command) {
            Ok((h2, a)) => {
                h = h2;
                if a {
                    added = added + 1;
                }
            }
            Err(e) => {
                return Err(e);
            }
        }
        k = k + 1;
    }
    assert(te.skip(9) =~= Seq::<Seq<char>>::empty());
    let root2 = upsert_member(root, "hooks", object_of(h));
    Ok((object_of(root2), added))
}

/// The hook events the settings hold: the members of their `hooks`
/// object, none when it is missing or not an object.
pub open spec fn hook_events(settings: JsonModel) -> Seq<(Seq<char>, JsonModel)> {
    match json_get(settings, "hooks"@) {
        Some(JsonModel::Object(e)) => e,
        _ => Seq::empty(),
    }
}

/// Reads the hook events from the settings.
pub fn get_hooks(settings: &JsonValue) -> (r: Vec<(String, JsonValue)>)
    ensures
        entries_model(r@) == hook_events(settings@),
{
    match get(settings, "hooks") {
        Some(JsonValue::Object(e)) => {
            let mut c: Vec<(String, JsonValue)> = Vec::new();
            let mut i: usize = 0;
            while i < e.len()
                invariant
                    i <= e@.len(),
                    entries_model(c@) == entries_model(e@).take(i as int),
                decreases e@.len() - i,
            {
                let ghost before = c@;
                let key = e[i].0.clone();
                let value = json_clone(&e[i].1);
                assert(key@ == e@[i as int].0@);
                c.push((key, value));
                assert(entries_model(c@) =~= entries_model(before).push((e@[i as int].0@, e@[i as int].1@)));
                i = i + 1;
                assert(entries_model(c@) =~= entries_model(e@).take(i as int));
            }
            assert(entries_model(e@).take(e@.len() as int) =~= entries_model(e@));
            assert(JsonValue::Object(*e)@->Object_0 =~= entries_model(e@));
            c
        }
        _ => {
            let c: Vec<(String, JsonValue)> = Vec::new();
            assert(entries_model(c@) =~= Seq::<(Seq<char>, JsonModel)>::empty());
            c
        }
    }
}

/// Replaces the hook events of the settings; the settings must be an object.
pub fn save_hooks(settings: JsonValue, events: Vec<(String, JsonValue)>) -> (r: Result<JsonValue, String>)
    ensures
        match settings@ {
            JsonModel::Object(root) => r matches Ok(v)
                && v@ == JsonModel::Object(upsert(root, "hooks"@, JsonModel::Object(entries_model(events@)))),
            _ => r matches Err(m) && m@ == "settings root is not a JSON object"@,
        },
{
    match settings {
        JsonValue::Object(root) => {
            let ghost rm = entries_model(root@);
            assert(settings@->Object_0 =~= rm);
            let root2 = upsert_member(root, "hooks", object_of(events));
            Ok(object_of(root2))
        }
        _ => Err("settings root is not a JSON object".to_string()),
    }
}

/// Law: the hook events read from saved settings are exactly the ones saved,
/// and every other member of the settings is kept.
pub proof fn lemma_saved_hooks_read_back(root: Seq<(Seq<char>, JsonModel)>, events: Seq<(Seq<char>, JsonModel)>, key: Seq<char>)
    ensures
        hook_events(JsonModel::Object(upsert(root, "hooks"@, JsonModel::Object(events)))) == events,
        key != "hooks"@ ==> json_get(JsonModel::Object(upsert(root, "hooks"@, JsonModel::Object(events))), key)
            == entries_get(root, key),
{
    lemma_get_after_upsert(root, "hooks"@, JsonModel::Object(events), "hooks"@);
    lemma_get_after_upsert(root, "hooks"@, JsonModel::Object(events), key);
}

/// A number printed with at least `width` digits, padded with zeros.
pub open spec fn zero_padded(n: nat, width: nat) -> Seq<char> {
    let d = decimal(n);
    if d.len() >= width { d } else { Seq::new((width - d.len()) as nat, |i: int| '0') + d }
}

fn push_zero_padded(v: &mut Vec<char>, n: u64, width: usize)
    requires
        width <= 20,
    ensures
        final(v)@ == old(v)@ + zero_padded(n as nat, width as nat),
{
    let digits = crate::text::u64_to_string(n);
    let d = chars_of(digits.as_str());
    let ghost start = v@;
    let mut pad: usize = if d.len() >= width { 0 } else { width - d.len() };
    let ghost total = pad;
    let mut k: usize = 0;
    while k < pad
        invariant
            k <= pad,
            pad == total,
            v@ == start + Seq::new(k as nat, |i: int| '0'),
        decreases pad - k,
    {
        v.push('0');
        k = k + 1;
        assert(v@ =~= start + Seq::new(k as nat, |i: int| '0'));
    }
    push_chars(v, &d);
    assert(v@ =~= start + zero_padded(n as nat, width as nat));
}

/// The stamp put on settings backups: the year counted in whole 365-day
/// years since 1970, the day number since the epoch (at least three
/// digits), then hours, minutes and seconds of the day (two digits each).
pub open spec fn backup_stamp(secs: nat) -> Seq<char> {
    let days = secs / 86400;
    decimal(1970 + days / 365) + zero_padded(days, 3) + "-"@
        + zero_padded((secs / 3600) % 24, 2) + zero_padded((secs / 60) % 60, 2) + zero_padded(secs % 60, 2)
}

/// Formats the backup stamp for a time in seconds since the epoch.
pub fn chrono_timestamp(secs: u64) -> (r: String)
    ensures
        r@ == backup_stamp(secs as nat),
{
    let days = secs / 86400;
    let year = 1970 + days / 365;
    let mut v: Vec<char> = Vec::new();
    push_decimal(&mut v, year);
    push_zero_padded(&mut v, days, 3);
    push_str(&mut v, "-");
    push_zero_padded(&mut v, (secs / 3600) % 24, 2);
    push_zero_padded(&mut v, (secs / 60) % 60, 2);
    push_zero_padded(&mut v, secs % 60, 2);
    string_from_chars(&v)
}

/// The name of the backup of a settings file: `<name>.bak.<stamp>`.
pub fn backup_file_name(file_name: &str, stamp: &str) -> (r: String)
    ensures
        r@ == file_name@ + ".bak."@ + stamp@,
{
    let mut v: Vec<char> = Vec::new();
    push_str(&mut v, file_name);
    push_str(&mut v, ".bak.");
    push_str(&mut v, stamp);
    string_from_chars(&v)
}

} // verus!
