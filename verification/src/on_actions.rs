//! on_actions: the `common/on_actions/*.txt` files that wire game events to
//! engine hooks.
//!
//! Each file holds a flat series of `<hook_name> = { <effect body> }` blocks
//! (`on_startup`, `on_religion_change`, `on_battle_won`, …). A hook body is
//! effect-shaped and, besides direct effects and scripted-effect calls, may
//! carry:
//!   * `events = { <id> <id> … }` — a bare list of event ids fired unconditionally.
//!   * `random_events = { <weight> = <id> … }` — weighted event ids (`0` = nothing).
//!
//! The same hook may appear several times (the game concatenates them); each
//! occurrence is listed separately, keyed by its own occurrence-qualified path
//! so byte-surgical editing stays unambiguous. Listing the folder is the
//! caller's part.

use vstd::prelude::*;
use crate::paradox::{bare_texts, first_key, Block, Value};
use crate::script_tree::{trim_chars, trim_spec};
use crate::scripted::is_identifier;
use crate::text::{chars_of, segment, segment_spec, str_eq, string_from_chars, strings_of};

verus! {

/// The game location holding on_action files.
pub const ON_ACTIONS_DIR: &'static str = "common/on_actions";

/// Toolkit-owned project file new hooks scaffold into.
pub const PROJECT_FILE: &'static str = "common/on_actions/zz_eutoolkit_on_actions.txt";

/// One weighted entry of a `random_events` block (`<weight> = <id>`).
#[derive(Debug)]
pub struct WeightedEvent {
    /// The weight (as written — usually an integer; `0` is "nothing happens").
    pub weight: String,
    /// The event id (or `0` for the nothing slot).
    pub id: String,
}

/// One engine-hook block, ready for the overlay list and editor.
#[derive(Debug)]
pub struct OnActionHook {
    /// The hook name (`on_startup`).
    pub hook: String,
    /// Game-relative file the hook was found in.
    pub file: String,
    /// `base` | `mod`.
    pub origin: String,
    /// Byte-surgical path to the hook block (occurrence-qualified: `on_startup#n`).
    pub path: Vec<String>,
    /// Path to the `events` bare-id list (present iff `has_events`).
    pub events_path: Vec<String>,
    /// Path to the `random_events` block (present iff `has_random_events`).
    pub random_events_path: Vec<String>,
    /// Unconditional event ids in `events = { … }`.
    pub events: Vec<String>,
    /// Weighted ids in `random_events = { … }`.
    pub random_events: Vec<WeightedEvent>,
    pub has_events: bool,
    pub has_random_events: bool,
    /// Count of the remaining (non-events) statements in the body — a size hint.
    pub effect_count: usize,
}

/// A create scaffold: the file to write and the statement to insert.
#[derive(Debug)]
pub struct OnActionScaffold {
    pub file: String,
    pub statement: String,
}

/// One on_action hook that fires an event `id` (a jump-link target).
#[derive(Debug)]
pub struct OnActionRef {
    /// Game-relative on_action file the firing hook lives in.
    pub file: String,
    /// `base` | `mod`.
    pub origin: String,
    /// The hook name that fires the event.
    pub hook: String,
    /// `events` (unconditional) | `random_events` (weighted).
    pub via: String,
}

// ---------------------------------------------------------------------------
// Hook bodies
// ---------------------------------------------------------------------------

/// The block value of the first item keyed `key`, when that value is a block.
pub open spec fn named_block(items: Seq<(Option<String>, Value)>, key: Seq<char>) -> Option<Block> {
    match first_key(items, key) {
        Some(i) => match items[i].1 {
            Value::Block(b) => Some(b),
            _ => None,
        },
        None => None,
    }
}

/// The `<key> = <scalar>` items, as `(key, value)` texts, in order.
pub open spec fn keyed_scalars(items: Seq<(Option<String>, Value)>) -> Seq<(Seq<char>, Seq<char>)>
    decreases items.len(),
{
    if items.len() == 0 {
        Seq::empty()
    } else {
        let rest = keyed_scalars(items.drop_last());
        match items.last() {
            (Some(k), Value::Scalar(v)) => rest.push((k@, v@)),
            _ => rest,
        }
    }
}

/// Whether an item is keyed `events` or `random_events`.
pub open spec fn is_list_key(k: Option<String>) -> bool {
    k matches Some(s) && (s@ == "events"@ || s@ == "random_events"@)
}

/// The number of items not keyed `events` / `random_events`.
pub open spec fn effect_count_spec(items: Seq<(Option<String>, Value)>) -> nat
    decreases items.len(),
{
    if items.len() == 0 {
        0
    } else {
        effect_count_spec(items.drop_last()) + if is_list_key(items.last().0) { 0nat } else { 1nat }
    }
}

/// The bare event ids of a hook's `events = { … }` list.
pub open spec fn events_spec(hook: Block) -> Seq<Seq<char>> {
    match named_block(hook.items@, "events"@) {
        Some(b) => bare_texts(b.items@),
        None => Seq::empty(),
    }
}

/// The `<weight> = <id>` entries of a hook's `random_events = { … }` block.
pub open spec fn random_events_spec(hook: Block) -> Seq<(Seq<char>, Seq<char>)> {
    match named_block(hook.items@, "random_events"@) {
        Some(b) => keyed_scalars(b.items@),
        None => Seq::empty(),
    }
}

pub open spec fn weighted_view(v: Seq<WeightedEvent>) -> Seq<(Seq<char>, Seq<char>)> {
    v.map_values(|w: WeightedEvent| (w.weight@, w.id@))
}

/// The bare (keyless) scalar texts of a block, as strings.
pub(crate) fn bare_strings(b: &Block) -> (r: Vec<String>)
    ensures
        strings_of(r@) == bare_texts(b.items@),
{
    let mut out: Vec<String> = Vec::new();
    let s = b.bare_scalars();
    let mut i: usize = 0;
    while i < s.len()
        invariant
            i <= s@.len(),
            s@.len() == bare_texts(b.items@).len(),
            forall|k: int| 0 <= k < s@.len() ==> (#[trigger] s@[k])@ == bare_texts(b.items@)[k],
            strings_of(out@) == bare_texts(b.items@).subrange(0, i as int),
        decreases s@.len() - i,
    {
        let ghost prev = out@;
        let t = s[i].to_string();
        out.push(t);
        assert(strings_of(out@) =~= strings_of(prev).push(s@[i as int]@));
        assert(strings_of(out@) =~= bare_texts(b.items@).subrange(0, i + 1));
        i = i + 1;
    }
    assert(bare_texts(b.items@).subrange(0, s@.len() as int) =~= bare_texts(b.items@));
    out
}

fn events_of(hook: &Block) -> (r: Vec<String>)
    ensures
        strings_of(r@) == events_spec(*hook),
{
    match hook.get_block("events") {
        None => {
            let out: Vec<String> = Vec::new();
            assert(strings_of(out@) =~= Seq::<Seq<char>>::empty());
            out
        },
        Some(b) => bare_strings(b),
    }
}

fn random_events_of(hook: &Block) -> (r: Vec<WeightedEvent>)
    ensures
        weighted_view(r@) == random_events_spec(*hook),
{
    let mut out: Vec<WeightedEvent> = Vec::new();
    match hook.get_block("random_events") {
        None => {},
        Some(b) => {
            let mut i: usize = 0;
            while i < b.items.len()
                invariant
                    i <= b.items@.len(),
                    weighted_view(out@) == keyed_scalars(b.items@.subrange(0, i as int)),
                decreases b.items@.len() - i,
            {
                let ghost before = out@;
                assert(b.items@.subrange(0, i + 1).drop_last() =~= b.items@.subrange(0, i as int));
                match &b.items[i] {
                    (Some(w), Value::Scalar(id)) => {
                        out.push(WeightedEvent { weight: w.clone(), id: id.clone() });
                        assert(weighted_view(out@) =~= weighted_view(before).push((w@, id@)));
                    },
                    _ => {},
                }
                i = i + 1;
            }
            assert(b.items@.subrange(0, b.items@.len() as int) =~= b.items@);
        },
    }
    out
}

fn is_list_key_exec(k: &Option<String>) -> (r: bool)
    ensures
        r == is_list_key(*k),
{
    match k {
        Some(s) => str_eq(s.as_str(), "events") || str_eq(s.as_str(), "random_events"),
        None => false,
    }
}

fn effect_count(hook: &Block) -> (r: usize)
    ensures
        r as nat == effect_count_spec(hook.items@),
{
    let mut n: usize = 0;
    let mut i: usize = 0;
    while i < hook.items.len()
        invariant
            i <= hook.items@.len(),
            n <= i,
            n as nat == effect_count_spec(hook.items@.subrange(0, i as int)),
        decreases hook.items@.len() - i,
    {
        assert(hook.items@.subrange(0, i + 1).drop_last() =~= hook.items@.subrange(0, i as int));
        if !is_list_key_exec(&hook.items[i].0) {
            n = n + 1;
        }
        i = i + 1;
    }
    assert(hook.items@.subrange(0, hook.items@.len() as int) =~= hook.items@);
    n
}

// ---------------------------------------------------------------------------
// Hooks of one file
// ---------------------------------------------------------------------------

/// The number of `key = { … }` items before index `idx` keyed `k`.
pub open spec fn block_occ(items: Seq<(Option<String>, Value)>, k: Seq<char>, idx: int) -> nat
    decreases idx,
{
    if idx <= 0 || idx > items.len() {
        0
    } else {
        block_occ(items, k, idx - 1) + if items[idx - 1].0 matches Some(s) && s@ == k && items[idx - 1].1 is Block {
            1nat
        } else {
            0nat
        }
    }
}

/// The view of a hook: name, file, origin, path, events path, random-events
/// path, events, random events, has events, has random events, effect count.
pub open spec fn hook_view(h: OnActionHook) -> (Seq<char>, Seq<char>, Seq<char>, Seq<Seq<char>>, Seq<Seq<char>>, Seq<Seq<char>>, Seq<Seq<char>>, Seq<(Seq<char>, Seq<char>)>, bool, bool, nat) {
    (
        h.hook@,
        h.file@,
        h.origin@,
        strings_of(h.path@),
        strings_of(h.events_path@),
        strings_of(h.random_events_path@),
        strings_of(h.events@),
        weighted_view(h.random_events@),
        h.has_events,
        h.has_random_events,
        h.effect_count as nat,
    )
}

pub open spec fn hooks_view(v: Seq<OnActionHook>) -> Seq<(Seq<char>, Seq<char>, Seq<char>, Seq<Seq<char>>, Seq<Seq<char>>, Seq<Seq<char>>, Seq<Seq<char>>, Seq<(Seq<char>, Seq<char>)>, bool, bool, nat)> {
    v.map_values(|h: OnActionHook| hook_view(h))
}

/// The hook read from the `occ`-th `key = { … }` block `hook` of a file.
pub open spec fn hook_spec(key: Seq<char>, hook: Block, occ: nat, file: Seq<char>, origin: Seq<char>) -> (Seq<char>, Seq<char>, Seq<char>, Seq<Seq<char>>, Seq<Seq<char>>, Seq<Seq<char>>, Seq<Seq<char>>, Seq<(Seq<char>, Seq<char>)>, bool, bool, nat) {
    let seg = segment_spec(key, occ);
    (
        key,
        file,
        origin,
        seq![seg],
        seq![seg, "events"@],
        seq![seg, "random_events"@],
        events_spec(hook),
        random_events_spec(hook),
        named_block(hook.items@, "events"@) is Some,
        named_block(hook.items@, "random_events"@) is Some,
        effect_count_spec(hook.items@),
    )
}

/// The hooks among the first `n` top-level items: every `key = { … }` item,
/// in file order.
pub open spec fn hooks_upto(items: Seq<(Option<String>, Value)>, file: Seq<char>, origin: Seq<char>, n: int) -> Seq<(Seq<char>, Seq<char>, Seq<char>, Seq<Seq<char>>, Seq<Seq<char>>, Seq<Seq<char>>, Seq<Seq<char>>, Seq<(Seq<char>, Seq<char>)>, bool, bool, nat)>
    decreases n,
{
    if n <= 0 || n > items.len() {
        Seq::empty()
    } else {
        let rest = hooks_upto(items, file, origin, n - 1);
        match items[n - 1] {
            (Some(k), Value::Block(b)) => rest.push(hook_spec(k@, b, block_occ(items, k@, n - 1), file, origin)),
            _ => rest,
        }
    }
}

fn count_block_occ(items: &Vec<(Option<String>, Value)>, k: &str, idx: usize) -> (r: usize)
    requires
        idx <= items@.len(),
    ensures
        r as nat == block_occ(items@, k@, idx as int),
{
    let mut n: usize = 0;
    let mut j: usize = 0;
    while j < idx
        invariant
            j <= idx,
            idx <= items@.len(),
            n <= j,
            n as nat == block_occ(items@, k@, j as int),
        decreases idx - j,
    {
        let hit = match &items[j] {
            (Some(s), Value::Block(_)) => str_eq(s.as_str(), k),
            _ => false,
        };
        if hit {
            n = n + 1;
        }
        j = j + 1;
    }
    n
}

fn path_of(seg: &String, tail: Option<&str>) -> (r: Vec<String>)
    ensures
        strings_of(r@) == match tail {
            Some(t) => seq![seg@, t@],
            None => seq![seg@],
        },
{
    let mut p: Vec<String> = Vec::new();
    p.push(seg.clone());
    match tail {
        Some(t) => {
            p.push(t.to_string());
        },
        None => {},
    }
    assert(strings_of(p@) =~= match tail {
        Some(t) => seq![seg@, t@],
        None => seq![seg@],
    });
    p
}

/// Collects every hook of one parsed file into `out`: each top-level
/// `key = { … }` block, with its occurrence-qualified path.
pub fn collect_file(block: &Block, file: &str, origin: &str, out: &mut Vec<OnActionHook>)
    ensures
        hooks_view(final(out)@) == hooks_view(old(out)@) + hooks_upto(block.items@, file@, origin@, block.items@.len() as int),
{
    let ghost start = hooks_view(out@);
    let mut i: usize = 0;
    while i < block.items.len()
        invariant
            i <= block.items@.len(),
            hooks_view(out@) == start + hooks_upto(block.items@, file@, origin@, i as int),
        decreases block.items@.len() - i,
    {
        let ghost before = out@;
        match &block.items[i] {
            (Some(k), Value::Block(hook)) => {
                let occ = count_block_occ(&block.items, k.as_str(), i);
                let seg = segment(k.as_str(), occ);
                let path = path_of(&seg, None);
                let events_path = path_of(&seg, Some("events"));
                let random_events_path = path_of(&seg, Some("random_events"));
                let events = events_of(hook);
                let random_events = random_events_of(hook);
                let has_events = hook.get_block("events").is_some();
                let has_random_events = hook.get_block("random_events").is_some();
                let effect_count = effect_count(hook);
                out.push(OnActionHook {
                    hook: k.clone(),
                    file: file.to_string(),
                    origin: origin.to_string(),
                    path,
                    events_path,
                    random_events_path,
                    events,
                    random_events,
                    has_events,
                    has_random_events,
                    effect_count,
                });
                assert(hooks_view(out@) =~= hooks_view(before).push(hook_view(out@.last())));
            },
            _ => {},
        }
        i = i + 1;
    }
}

// ---------------------------------------------------------------------------
// References and scaffold
// ---------------------------------------------------------------------------

/// The references to event `id` among `hooks`: per hook, one via `events`
/// when its events list names the id, then one via `random_events` when a
/// weighted entry does.
pub open spec fn refs_spec(hooks: Seq<OnActionHook>, id: Seq<char>) -> Seq<(Seq<char>, Seq<char>, Seq<char>, Seq<char>)>
    decreases hooks.len(),
{
    if hooks.len() == 0 {
        Seq::empty()
    } else {
        let h = hooks.last();
        let rest = refs_spec(hooks.drop_last(), id);
        let a = if strings_of(h.events@).contains(id) { seq![(h.file@, h.origin@, h.hook@, "events"@)] } else { Seq::empty() };
        let b = if exists|k: int| 0 <= k < h.random_events@.len() && (#[trigger] h.random_events@[k]).id@ == id {
            seq![(h.file@, h.origin@, h.hook@, "random_events"@)]
        } else {
            Seq::empty()
        };
        rest + a + b
    }
}

/// Whether the hook's `events` list names the event.
pub open spec fn fires_via_events(h: OnActionHook, id: Seq<char>) -> bool {
    exists|k: int| 0 <= k < h.events@.len() && (#[trigger] h.events@[k])@ == id
}

/// Whether one of the hook's `random_events` entries names the event.
pub open spec fn fires_via_random(h: OnActionHook, id: Seq<char>) -> bool {
    exists|k: int| 0 <= k < h.random_events@.len() && (#[trigger] h.random_events@[k]).id@ == id
}

/// What finding the hooks that fire an event gives: one reference via
/// `events` for every hook whose events list names the event and one via
/// `random_events` for every hook with a weighted entry naming it, and no
/// more: the number of references is the number of such hook/list pairs.
pub proof fn lemma_refs_complete(hooks: Seq<OnActionHook>, id: Seq<char>)
    ensures
        refs_spec(hooks, id).len() == hooks.filter(|h: OnActionHook| fires_via_events(h, id)).len() + hooks.filter(
            |h: OnActionHook| fires_via_random(h, id),
        ).len(),
        forall|k: int|
            0 <= k < hooks.len() && fires_via_events(hooks[k], id) ==> refs_spec(hooks, id).contains(
                (hooks[k].file@, hooks[k].origin@, hooks[k].hook@, "events"@),
            ),
        forall|k: int|
            0 <= k < hooks.len() && fires_via_random(hooks[k], id) ==> refs_spec(hooks, id).contains(
                (hooks[k].file@, hooks[k].origin@, hooks[k].hook@, "random_events"@),
            ),
    decreases hooks.len(),
{
    if hooks.len() > 0 {
        let init = hooks.drop_last();
        let h = hooks.last();
        lemma_refs_complete(init, id);
        let ev = |x: OnActionHook| fires_via_events(x, id);
        let rn = |x: OnActionHook| fires_via_random(x, id);
        assert(init.push(h) =~= hooks);
        init.lemma_filter_push(h, ev);
        init.lemma_filter_push(h, rn);
        assert(strings_of(h.events@).contains(id) == fires_via_events(h, id)) by {
            if fires_via_events(h, id) {
                let k = choose|k: int| 0 <= k < h.events@.len() && (#[trigger] h.events@[k])@ == id;
                assert(strings_of(h.events@)[k] == id);
            }
            if strings_of(h.events@).contains(id) {
                let k = choose|k: int| 0 <= k < strings_of(h.events@).len() && strings_of(h.events@)[k] == id;
                assert(h.events@[k]@ == id);
            }
        }
        let rest = refs_spec(init, id);
        let a = if strings_of(h.events@).contains(id) { seq![(h.file@, h.origin@, h.hook@, "events"@)] } else { Seq::empty() };
        let b = if fires_via_random(h, id) { seq![(h.file@, h.origin@, h.hook@, "random_events"@)] } else { Seq::empty() };
        let all = refs_spec(hooks, id);
        assert(all == rest + a + b);
        assert forall|k: int|
            0 <= k < hooks.len() && fires_via_events(hooks[k], id) implies all.contains(
                (hooks[k].file@, hooks[k].origin@, hooks[k].hook@, "events"@),
            ) by {
            if k < init.len() {
                assert(init[k] == hooks[k]);
                let t = (hooks[k].file@, hooks[k].origin@, hooks[k].hook@, "events"@);
                assert(rest.contains(t));
                let m = choose|m: int| 0 <= m < rest.len() && rest[m] == t;
                assert(all[m] == t);
            } else {
                assert(all[rest.len() as int] == (h.file@, h.origin@, h.hook@, "events"@));
            }
        }
        assert forall|k: int|
            0 <= k < hooks.len() && fires_via_random(hooks[k], id) implies all.contains(
                (hooks[k].file@, hooks[k].origin@, hooks[k].hook@, "random_events"@),
            ) by {
            if k < init.len() {
                assert(init[k] == hooks[k]);
                let t = (hooks[k].file@, hooks[k].origin@, hooks[k].hook@, "random_events"@);
                assert(rest.contains(t));
                let m = choose|m: int| 0 <= m < rest.len() && rest[m] == t;
                assert(all[m] == t);
            } else {
                assert(all[(rest.len() + a.len()) as int] == (h.file@, h.origin@, h.hook@, "random_events"@));
            }
        }
    } else {
        assert(refs_spec(hooks, id).len() == 0);
    }
}

pub open spec fn refs_view(v: Seq<OnActionRef>) -> Seq<(Seq<char>, Seq<char>, Seq<char>, Seq<char>)> {
    v.map_values(|r: OnActionRef| (r.file@, r.origin@, r.hook@, r.via@))
}

fn names_event(v: &Vec<String>, id: &str) -> (r: bool)
    ensures
        r == strings_of(v@).contains(id@),
{
    let mut i: usize = 0;
    while i < v.len()
        invariant
            i <= v@.len(),
            forall|k: int| 0 <= k < i ==> v@[k]@ != id@,
        decreases v@.len() - i,
    {
        if str_eq(v[i].as_str(), id) {
            assert(strings_of(v@)[i as int] == id@);
            return true;
        }
        i = i + 1;
    }
    proof {
        if strings_of(v@).contains(id@) {
            let k = choose|k: int| 0 <= k < strings_of(v@).len() && strings_of(v@)[k] == id@;
            assert(v@[k]@ == id@);
        }
    }
    false
}

fn weights_name_event(v: &Vec<WeightedEvent>, id: &str) -> (r: bool)
    ensures
        r == exists|k: int| 0 <= k < v@.len() && (#[trigger] v@[k]).id@ == id@,
{
    let mut i: usize = 0;
    while i < v.len()
        invariant
            i <= v@.len(),
            forall|k: int| 0 <= k < i ==> (#[trigger] v@[k]).id@ != id@,
        decreases v@.len() - i,
    {
        if str_eq(v[i].id.as_str(), id) {
            return true;
        }
        i = i + 1;
    }
    false
}

/// Every hook among `hooks` that fires the event `id` via its `events` or
/// `random_events` list.
pub fn scan_on_action_refs(hooks: &[OnActionHook], id: &str) -> (r: Vec<OnActionRef>)
    ensures
        refs_view(r@) == refs_spec(hooks@, id@),
{
    let mut out: Vec<OnActionRef> = Vec::new();
    let mut i: usize = 0;
    while i < hooks.len()
        invariant
            i <= hooks@.len(),
            refs_view(out@) == refs_spec(hooks@.subrange(0, i as int), id@),
        decreases hooks@.len() - i,
    {
        let h = &hooks[i];
        let ghost before = out@;
        proof {
            assert(hooks@.subrange(0, i + 1).drop_last() =~= hooks@.subrange(0, i as int));
            assert(hooks@.subrange(0, i + 1).last() == *h);
        }
        if names_event(&h.events, id) {
            out.push(OnActionRef {
                file: h.file.clone(),
                origin: h.origin.clone(),
                hook: h.hook.clone(),
                via: String::from_str("events"),
            });
        }
        let ghost mid = out@;
        if weights_name_event(&h.random_events, id) {
            out.push(OnActionRef {
                file: h.file.clone(),
                origin: h.origin.clone(),
                hook: h.hook.clone(),
                via: String::from_str("random_events"),
            });
        }
        proof {
            let a = if strings_of(h.events@).contains(id@) { seq![(h.file@, h.origin@, h.hook@, "events"@)] } else { Seq::empty() };
            assert(refs_view(mid) =~= refs_view(before) + a);
        }
        assert(refs_view(out@) =~= refs_spec(hooks@.subrange(0, i + 1), id@));
        i = i + 1;
    }
    assert(hooks@.subrange(0, hooks@.len() as int) =~= hooks@);
    out
}

/// What [`scaffold_on_action`] gives for `hook`.
pub open spec fn on_action_scaffold_spec(hook: Seq<char>) -> Result<(Seq<char>, Seq<char>), Seq<char>> {
    let h = trim_spec(hook, false);
    if !is_identifier(h) {
        Err("Hook must be a bare identifier (letters, digits, underscore)."@)
    } else {
        Ok((PROJECT_FILE@, h + " = {\n\tevents = {\n\t}\n}"@))
    }
}

/// Scaffolds a new (or override) on_action hook block: the toolkit project
/// file and a `<hook> = { events = { } }` statement (inserted into an
/// existing toolkit file, else written as a new file).
pub fn scaffold_on_action(hook: String) -> (r: Result<OnActionScaffold, String>)
    ensures
        match (r, on_action_scaffold_spec(hook@)) {
            (Ok(sc), Ok((f, st))) => sc.file@ == f && sc.statement@ == st,
            (Err(m), Err(w)) => m@ == w,
            _ => false,
        },
{
    let cs = chars_of(hook.as_str());
    let trimmed = trim_chars(cs.as_slice(), false);
    if !crate::scripted::identifier_chars(trimmed.as_slice()) {
        return Err(String::from_str("Hook must be a bare identifier (letters, digits, underscore)."));
    }
    let mut statement = string_from_chars(trimmed.as_slice());
    statement.append(" = {\n\tevents = {\n\t}\n}");
    Ok(OnActionScaffold { file: String::from_str(PROJECT_FILE), statement })
}

} // verus!
