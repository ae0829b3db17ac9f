//! Rebel factions: `common/rebel_types/*.txt` holds one faction block per
//! top-level key (`nationalist_rebels`, `anti_tax_rebels`, …).
//!
//! * **Enum scalars**: `area`, `government`, `defection`, `independence`,
//!   `gfx_type`.
//! * **Bool scalars**: `unit_transfer`, `will_relocate`, `resilient`,
//!   `reinforcing`, `general`, `smart`, `dynasty`, `disband_on_leader_death`,
//!   `revolutionary`, and the `handle_action_*` set.
//! * **Number scalars**: `defect_delay` (int), `artillery`, `infantry`,
//!   `cavalry`, `morale`.
//! * **String scalars**: `religion`, `demands_description`.
//! * **`color`** block.
//! * **Trigger blocks**: `siege_won_trigger`, `can_negotiate_trigger`,
//!   `can_enforce_trigger`; **effect blocks**: `siege_won_effect`,
//!   `demands_enforced_effect`; **weight blocks** (trigger leaves):
//!   `spawn_chance`, `movement_evaluation`.
//! * Everything unmodeled (`raw_extra`) round-trips untouched.
//!
//! Loc keys are formed from the block key: `<key>_name`, `<key>_title` (the
//! list label) and `<key>_desc`. Listing the folder is the caller's part, and
//! so is reading the `color` block's numbers (they may be fractions).

use vstd::prelude::*;
use crate::fields::{
    block_present, has_block, owned, raw_block, raw_text, texts, trimmed_scalar, trimmed_value, unmodeled,
    unmodeled_keys,
};
use crate::mechanics::{is_txt, is_txt_name};
use crate::mod_writer::{date_less, date_lt, parse_date, parse_date_spec};
use crate::paradox::{keyed_blocks, key_view, lemma_block_view, lemma_items_vview_index, parse, parse_spec, scalar_of, vblock_of, Block, VValue, Value};
use crate::script_tree::{trim_chars, trim_spec};
use crate::text::{
    chars_of, decimal, is_digit, loc_get, loc_lookup, loc_view, lossy_string, lossy_utf8, opt_view, parse_unsigned,
    parse_unsigned_bytes, prettify, prettify_spec, str_eq, string_from_chars, strings_of, usize_to_string,
};

verus! {

/// The game location holding rebel types.
pub const REBELS_DIR: &'static str = "common/rebel_types";

/// Toolkit-owned project file new rebel types scaffold into.
pub const REBELS_PROJECT_FILE: &'static str = "common/rebel_types/zz_eutoolkit_rebel_types.txt";

/// One typed scalar of a faction.
#[derive(Debug)]
pub struct Scalar {
    pub key: String,
    pub kind: String,
    pub present: bool,
    pub value: String,
    /// Enum option set (empty for non-enum kinds).
    pub options: Vec<String>,
}

/// One script block of a faction.
#[derive(Debug)]
pub struct ScriptBlockRef {
    pub name: String,
    /// `triggers` | `effects` — which known-key registry the tree editor uses.
    pub registry: String,
    pub present: bool,
}

/// One rebel faction, ready for the list and the typed editor.
#[derive(Debug)]
pub struct RebelFaction {
    pub key: String,
    pub file: String,
    pub origin: String,
    /// List-display label (resolved `<key>_title`, else prettified key).
    pub title: String,
    pub name_key: String,
    pub name_loc: Option<String>,
    pub title_key: String,
    pub title_loc: Option<String>,
    pub desc_key: String,
    pub desc_loc: Option<String>,
    pub color: Option<[u8; 3]>,
    pub scalars: Vec<Scalar>,
    pub script_blocks: Vec<ScriptBlockRef>,
    pub raw_extra: Vec<String>,
    pub raw: String,
}

/// Every faction, plus the file new ones scaffold into.
#[derive(Debug)]
pub struct RebelsData {
    pub factions: Vec<RebelFaction>,
    pub project_file: String,
}

/// One loc key to queue with its text.
#[derive(Debug)]
pub struct LocEntry {
    pub key: String,
    pub value: String,
}

/// A create scaffold: the block text, its file, and the loc entries to queue.
#[derive(Debug)]
pub struct Scaffold {
    pub key: String,
    pub file: String,
    pub text: String,
    /// Loc keys to queue (name/title/desc/demand).
    pub loc_entries: Vec<LocEntry>,
}

/// A province with a revolt of a faction active at a date.
#[derive(Debug)]
pub struct RebelProvince {
    pub id: u32,
    pub name: String,
    /// `None` = the revolt is set at the top level; else the dated block it
    /// was (last) set in.
    pub date: Option<String>,
}

// ---------------------------------------------------------------------------
// Schema
// ---------------------------------------------------------------------------

/// The typed scalars: key, kind, enum options.
pub open spec fn rebel_scalars() -> Seq<(Seq<char>, Seq<char>, Seq<Seq<char>>)> {
    seq![
        ("area"@, "enum"@, seq!["nation"@, "nation_rebel_tag"@, "nation_religion"@]),
        ("government"@, "enum"@, seq!["any"@, "monarchy"@, "republic"@, "theocracy"@, "anti"@]),
        ("defection"@, "enum"@, seq!["none"@, "culture"@, "culture_group"@, "religion"@, "any"@, "nation_rebel_tag"@]),
        ("independence"@, "enum"@, seq!["none"@, "culture"@, "culture_group"@, "religion"@, "any"@, "nation_rebel_tag"@]),
        ("gfx_type"@, "enum"@, seq!["culture_province"@, "culture_owner"@]),
        ("defect_delay"@, "int"@, Seq::<Seq<char>>::empty()),
        ("unit_transfer"@, "bool"@, Seq::<Seq<char>>::empty()),
        ("will_relocate"@, "bool"@, Seq::<Seq<char>>::empty()),
        ("resilient"@, "bool"@, Seq::<Seq<char>>::empty()),
        ("reinforcing"@, "bool"@, Seq::<Seq<char>>::empty()),
        ("general"@, "bool"@, Seq::<Seq<char>>::empty()),
        ("smart"@, "bool"@, Seq::<Seq<char>>::empty()),
        ("dynasty"@, "bool"@, Seq::<Seq<char>>::empty()),
        ("disband_on_leader_death"@, "bool"@, Seq::<Seq<char>>::empty()),
        ("revolutionary"@, "bool"@, Seq::<Seq<char>>::empty()),
        ("handle_action_negotiate"@, "bool"@, Seq::<Seq<char>>::empty()),
        ("handle_action_stability"@, "bool"@, Seq::<Seq<char>>::empty()),
        ("handle_action_build_core"@, "bool"@, Seq::<Seq<char>>::empty()),
        ("handle_action_send_missionary"@, "bool"@, Seq::<Seq<char>>::empty()),
        ("handle_action_change_culture"@, "bool"@, Seq::<Seq<char>>::empty()),
        ("artillery"@, "num"@, Seq::<Seq<char>>::empty()),
        ("infantry"@, "num"@, Seq::<Seq<char>>::empty()),
        ("cavalry"@, "num"@, Seq::<Seq<char>>::empty()),
        ("morale"@, "num"@, Seq::<Seq<char>>::empty()),
        ("religion"@, "str"@, Seq::<Seq<char>>::empty()),
        ("demands_description"@, "str"@, Seq::<Seq<char>>::empty())
    ]
}

/// The script blocks: name and the registry their keys come from (weight
/// blocks have trigger leaves).
pub open spec fn rebel_scripts() -> Seq<(Seq<char>, Seq<char>)> {
    seq![
        ("siege_won_trigger"@, "triggers"@),
        ("can_negotiate_trigger"@, "triggers"@),
        ("can_enforce_trigger"@, "triggers"@),
        ("siege_won_effect"@, "effects"@),
        ("demands_enforced_effect"@, "effects"@),
        ("spawn_chance"@, "triggers"@),
        ("movement_evaluation"@, "triggers"@),
    ]
}

pub open spec fn spec_rows_view(v: Seq<(&str, &str, Vec<&str>)>) -> Seq<(Seq<char>, Seq<char>, Seq<Seq<char>>)> {
    v.map_values(|r: (&str, &str, Vec<&str>)| (r.0@, r.1@, texts(r.2@)))
}

pub open spec fn pairs_view(v: Seq<(&str, &str)>) -> Seq<(Seq<char>, Seq<char>)> {
    v.map_values(|r: (&str, &str)| (r.0@, r.1@))
}

fn scalar_specs() -> (r: Vec<(&'static str, &'static str, Vec<&'static str>)>)
    ensures
        spec_rows_view(r@) == rebel_scalars(),
{
    let mut v: Vec<(&'static str, &'static str, Vec<&'static str>)> = Vec::new();
    v.push(("area", "enum", vec!["nation", "nation_rebel_tag", "nation_religion"]));
    v.push(("government", "enum", vec!["any", "monarchy", "republic", "theocracy", "anti"]));
    v.push(("defection", "enum", vec!["none", "culture", "culture_group", "religion", "any", "nation_rebel_tag"]));
    v.push(("independence", "enum", vec!["none", "culture", "culture_group", "religion", "any", "nation_rebel_tag"]));
    v.push(("gfx_type", "enum", vec!["culture_province", "culture_owner"]));
    v.push(("defect_delay", "int", vec![]));
    v.push(("unit_transfer", "bool", vec![]));
    v.push(("will_relocate", "bool", vec![]));
    v.push(("resilient", "bool", vec![]));
    v.push(("reinforcing", "bool", vec![]));
    v.push(("general", "bool", vec![]));
    v.push(("smart", "bool", vec![]));
    v.push(("dynasty", "bool", vec![]));
    v.push(("disband_on_leader_death", "bool", vec![]));
    v.push(("revolutionary", "bool", vec![]));
    v.push(("handle_action_negotiate", "bool", vec![]));
    v.push(("handle_action_stability", "bool", vec![]));
    v.push(("handle_action_build_core", "bool", vec![]));
    v.push(("handle_action_send_missionary", "bool", vec![]));
    v.push(("handle_action_change_culture", "bool", vec![]));
    v.push(("artillery", "num", vec![]));
    v.push(("infantry", "num", vec![]));
    v.push(("cavalry", "num", vec![]));
    v.push(("morale", "num", vec![]));
    v.push(("religion", "str", vec![]));
    v.push(("demands_description", "str", vec![]));
    assert(texts(v@[0].2@) =~= seq!["nation"@, "nation_rebel_tag"@, "nation_religion"@]);
    assert(texts(v@[1].2@) =~= seq!["any"@, "monarchy"@, "republic"@, "theocracy"@, "anti"@]);
    assert(texts(v@[2].2@) =~= seq!["none"@, "culture"@, "culture_group"@, "religion"@, "any"@, "nation_rebel_tag"@]);
    assert(texts(v@[3].2@) =~= seq!["none"@, "culture"@, "culture_group"@, "religion"@, "any"@, "nation_rebel_tag"@]);
    assert(texts(v@[4].2@) =~= seq!["culture_province"@, "culture_owner"@]);
    assert(texts(v@[5].2@) =~= Seq::<Seq<char>>::empty());
    assert(texts(v@[6].2@) =~= Seq::<Seq<char>>::empty());
    assert(texts(v@[7].2@) =~= Seq::<Seq<char>>::empty());
    assert(texts(v@[8].2@) =~= Seq::<Seq<char>>::empty());
    assert(texts(v@[9].2@) =~= Seq::<Seq<char>>::empty());
    assert(texts(v@[10].2@) =~= Seq::<Seq<char>>::empty());
    assert(texts(v@[11].2@) =~= Seq::<Seq<char>>::empty());
    assert(texts(v@[12].2@) =~= Seq::<Seq<char>>::empty());
    assert(texts(v@[13].2@) =~= Seq::<Seq<char>>::empty());
    assert(texts(v@[14].2@) =~= Seq::<Seq<char>>::empty());
    assert(texts(v@[15].2@) =~= Seq::<Seq<char>>::empty());
    assert(texts(v@[16].2@) =~= Seq::<Seq<char>>::empty());
    assert(texts(v@[17].2@) =~= Seq::<Seq<char>>::empty());
    assert(texts(v@[18].2@) =~= Seq::<Seq<char>>::empty());
    assert(texts(v@[19].2@) =~= Seq::<Seq<char>>::empty());
    assert(texts(v@[20].2@) =~= Seq::<Seq<char>>::empty());
    assert(texts(v@[21].2@) =~= Seq::<Seq<char>>::empty());
    assert(texts(v@[22].2@) =~= Seq::<Seq<char>>::empty());
    assert(texts(v@[23].2@) =~= Seq::<Seq<char>>::empty());
    assert(texts(v@[24].2@) =~= Seq::<Seq<char>>::empty());
    assert(texts(v@[25].2@) =~= Seq::<Seq<char>>::empty());
    assert(spec_rows_view(v@) =~= rebel_scalars());
    v
}

fn script_specs() -> (r: Vec<(&'static str, &'static str)>)
    ensures
        pairs_view(r@) == rebel_scripts(),
{
    let v = vec![
        ("siege_won_trigger", "triggers"),
        ("can_negotiate_trigger", "triggers"),
        ("can_enforce_trigger", "triggers"),
        ("siege_won_effect", "effects"),
        ("demands_enforced_effect", "effects"),
        ("spawn_chance", "triggers"),
        ("movement_evaluation", "triggers"),
    ];
    assert(pairs_view(v@) =~= rebel_scripts());
    v
}

pub open spec fn first_of3(r: (Seq<char>, Seq<char>, Seq<Seq<char>>)) -> Seq<char> {
    r.0
}

pub open spec fn first_of2(r: (Seq<char>, Seq<char>)) -> Seq<char> {
    r.0
}

/// The top-level keys the faction editor models.
pub open spec fn modeled_keys() -> Seq<Seq<char>> {
    seq!["color"@] + rebel_scalars().map_values(|r: (Seq<char>, Seq<char>, Seq<Seq<char>>)| first_of3(r))
        + rebel_scripts().map_values(|r: (Seq<char>, Seq<char>)| first_of2(r))
}

fn modeled_list(sc: &Vec<(&'static str, &'static str, Vec<&'static str>)>, sb: &Vec<(&'static str, &'static str)>) -> (r: Vec<&'static str>)
    requires
        spec_rows_view(sc@) == rebel_scalars(),
        pairs_view(sb@) == rebel_scripts(),
    ensures
        texts(r@) == modeled_keys(),
{
    let mut v: Vec<&'static str> = Vec::new();
    v.push("color");
    let ghost a = rebel_scalars().map_values(|r: (Seq<char>, Seq<char>, Seq<Seq<char>>)| first_of3(r));
    let ghost b = rebel_scripts().map_values(|r: (Seq<char>, Seq<char>)| first_of2(r));
    assert(texts(v@) =~= seq!["color"@]);
    let mut i: usize = 0;
    while i < sc.len()
        invariant
            i <= sc@.len(),
            spec_rows_view(sc@) == rebel_scalars(),
            a == rebel_scalars().map_values(|r: (Seq<char>, Seq<char>, Seq<Seq<char>>)| first_of3(r)),
            texts(v@) == seq!["color"@] + a.subrange(0, i as int),
        decreases sc@.len() - i,
    {
        let ghost before = v@;
        v.push(sc[i].0);
        assert(spec_rows_view(sc@)[i as int].0 == sc@[i as int].0@);
        assert(texts(v@) =~= texts(before).push(sc@[i as int].0@));
        assert(texts(v@) =~= seq!["color"@] + a.subrange(0, i + 1));
        i = i + 1;
    }
    assert(a.subrange(0, sc@.len() as int) =~= a);
    let ghost mid = texts(v@);
    let mut j: usize = 0;
    while j < sb.len()
        invariant
            j <= sb@.len(),
            pairs_view(sb@) == rebel_scripts(),
            b == rebel_scripts().map_values(|r: (Seq<char>, Seq<char>)| first_of2(r)),
            texts(v@) == mid + b.subrange(0, j as int),
        decreases sb@.len() - j,
    {
        let ghost before = v@;
        v.push(sb[j].0);
        assert(pairs_view(sb@)[j as int].0 == sb@[j as int].0@);
        assert(texts(v@) =~= texts(before).push(sb@[j as int].0@));
        assert(texts(v@) =~= mid + b.subrange(0, j + 1));
        j = j + 1;
    }
    assert(b.subrange(0, sb@.len() as int) =~= b);
    v
}

// ---------------------------------------------------------------------------
// Parse
// ---------------------------------------------------------------------------

/// The view of a typed scalar: key, kind, present, value, options.
pub open spec fn scalar_view(s: Scalar) -> (Seq<char>, Seq<char>, bool, Seq<char>, Seq<Seq<char>>) {
    (s.key@, s.kind@, s.present, s.value@, strings_of(s.options@))
}

pub open spec fn scalars_view(v: Seq<Scalar>) -> Seq<(Seq<char>, Seq<char>, bool, Seq<char>, Seq<Seq<char>>)> {
    v.map_values(|s: Scalar| scalar_view(s))
}

/// A scalar of the schema read from the faction's items: present with its
/// trimmed value, or absent with an empty value.
pub open spec fn scalar_spec(items: Seq<(Option<String>, Value)>, r: (Seq<char>, Seq<char>, Seq<Seq<char>>)) -> (Seq<char>, Seq<char>, bool, Seq<char>, Seq<Seq<char>>) {
    match trimmed_value(items, r.0) {
        Some(v) => (r.0, r.1, true, v, r.2),
        None => (r.0, r.1, false, Seq::empty(), r.2),
    }
}

pub open spec fn script_view(s: ScriptBlockRef) -> (Seq<char>, Seq<char>, bool) {
    (s.name@, s.registry@, s.present)
}

pub open spec fn scripts_view(v: Seq<ScriptBlockRef>) -> Seq<(Seq<char>, Seq<char>, bool)> {
    v.map_values(|s: ScriptBlockRef| script_view(s))
}

/// A script block of the schema: present when the faction holds it as a block.
pub open spec fn script_spec(items: Seq<(Option<String>, Value)>, r: (Seq<char>, Seq<char>)) -> (Seq<char>, Seq<char>, bool) {
    (r.0, r.1, has_block(items, r.0))
}

/// The spec view of a faction.
pub struct FactionView {
    pub key: Seq<char>,
    pub file: Seq<char>,
    pub origin: Seq<char>,
    pub title: Seq<char>,
    pub name_key: Seq<char>,
    pub name_loc: Option<Seq<char>>,
    pub title_key: Seq<char>,
    pub title_loc: Option<Seq<char>>,
    pub desc_key: Seq<char>,
    pub desc_loc: Option<Seq<char>>,
    pub color: Option<[u8; 3]>,
    pub scalars: Seq<(Seq<char>, Seq<char>, bool, Seq<char>, Seq<Seq<char>>)>,
    pub script_blocks: Seq<(Seq<char>, Seq<char>, bool)>,
    pub raw_extra: Seq<Seq<char>>,
    pub raw: Seq<char>,
}

pub open spec fn faction_view(f: RebelFaction) -> FactionView {
    FactionView {
        key: f.key@,
        file: f.file@,
        origin: f.origin@,
        title: f.title@,
        name_key: f.name_key@,
        name_loc: opt_view(f.name_loc),
        title_key: f.title_key@,
        title_loc: opt_view(f.title_loc),
        desc_key: f.desc_key@,
        desc_loc: opt_view(f.desc_loc),
        color: f.color,
        scalars: scalars_view(f.scalars@),
        script_blocks: scripts_view(f.script_blocks@),
        raw_extra: strings_of(f.raw_extra@),
        raw: f.raw@,
    }
}

/// The faction read from the block `b` keyed `key` in a file with bytes
/// `src`, given the localisation pairs and the colour read from its `color`
/// block.
pub open spec fn faction_spec(
    src: Seq<u8>,
    key: Seq<char>,
    b: Block,
    loc: Seq<(Seq<char>, Seq<char>)>,
    file: Seq<char>,
    origin: Seq<char>,
    color: Option<[u8; 3]>,
) -> FactionView {
    let items = b.items@;
    let title_key = key + "_title"@;
    FactionView {
        key,
        file,
        origin,
        title: match loc_get(loc, title_key) {
            Some(t) => t,
            None => prettify_spec(key),
        },
        name_key: key + "_name"@,
        name_loc: loc_get(loc, key + "_name"@),
        title_key,
        title_loc: loc_get(loc, title_key),
        desc_key: key + "_desc"@,
        desc_loc: loc_get(loc, key + "_desc"@),
        color,
        scalars: rebel_scalars().map_values(|r: (Seq<char>, Seq<char>, Seq<Seq<char>>)| scalar_spec(items, r)),
        script_blocks: rebel_scripts().map_values(|r: (Seq<char>, Seq<char>)| script_spec(items, r)),
        raw_extra: unmodeled_keys(items, modeled_keys()),
        raw: raw_text(src, seq![vstd::utf8::encode_utf8(key)]),
    }
}

fn scalars_of(b: &Block, sc: &Vec<(&'static str, &'static str, Vec<&'static str>)>) -> (r: Vec<Scalar>)
    requires
        spec_rows_view(sc@) == rebel_scalars(),
    ensures
        scalars_view(r@) == rebel_scalars().map_values(|q: (Seq<char>, Seq<char>, Seq<Seq<char>>)| scalar_spec(b.items@, q)),
{
    let ghost want = rebel_scalars().map_values(|q: (Seq<char>, Seq<char>, Seq<Seq<char>>)| scalar_spec(b.items@, q));
    let mut out: Vec<Scalar> = Vec::new();
    let mut i: usize = 0;
    while i < sc.len()
        invariant
            i <= sc@.len(),
            spec_rows_view(sc@) == rebel_scalars(),
            want == rebel_scalars().map_values(|q: (Seq<char>, Seq<char>, Seq<Seq<char>>)| scalar_spec(b.items@, q)),
            scalars_view(out@) == want.subrange(0, i as int),
        decreases sc@.len() - i,
    {
        let row = &sc[i];
        let val = trimmed_scalar(b, row.0);
        let present = val.is_some();
        let value = match val {
            Some(v) => v,
            None => String::new(),
        };
        let ghost before = out@;
        out.push(Scalar { key: row.0.to_string(), kind: row.1.to_string(), present, value, options: owned(&row.2) });
        proof {
            assert(spec_rows_view(sc@)[i as int] == (row.0@, row.1@, texts(row.2@)));
            assert(scalars_view(out@) =~= scalars_view(before).push(scalar_view(out@.last())));
        }
        assert(scalars_view(out@) =~= want.subrange(0, i + 1));
        i = i + 1;
    }
    assert(want.subrange(0, sc@.len() as int) =~= want);
    out
}

fn scripts_of(b: &Block, sb: &Vec<(&'static str, &'static str)>) -> (r: Vec<ScriptBlockRef>)
    requires
        pairs_view(sb@) == rebel_scripts(),
    ensures
        scripts_view(r@) == rebel_scripts().map_values(|q: (Seq<char>, Seq<char>)| script_spec(b.items@, q)),
{
    let ghost want = rebel_scripts().map_values(|q: (Seq<char>, Seq<char>)| script_spec(b.items@, q));
    let mut out: Vec<ScriptBlockRef> = Vec::new();
    let mut i: usize = 0;
    while i < sb.len()
        invariant
            i <= sb@.len(),
            pairs_view(sb@) == rebel_scripts(),
            want == rebel_scripts().map_values(|q: (Seq<char>, Seq<char>)| script_spec(b.items@, q)),
            scripts_view(out@) == want.subrange(0, i as int),
        decreases sb@.len() - i,
    {
        let row = &sb[i];
        let ghost before = out@;
        out.push(ScriptBlockRef { name: row.0.to_string(), registry: row.1.to_string(), present: block_present(b, row.0) });
        proof {
            assert(pairs_view(sb@)[i as int] == (row.0@, row.1@));
            assert(scripts_view(out@) =~= scripts_view(before).push(script_view(out@.last())));
        }
        assert(scripts_view(out@) =~= want.subrange(0, i + 1));
        i = i + 1;
    }
    assert(want.subrange(0, sb@.len() as int) =~= want);
    out
}

fn suffixed(key: &str, suffix: &str) -> (r: String)
    ensures
        r@ == key@ + suffix@,
{
    let mut s = String::from_str(key);
    s.append(suffix);
    s
}

/// Reads one faction: the typed scalars, the script blocks' presence, the
/// unmodeled keys and the raw block text, with its loc keys resolved against
/// `loc` (the title falls back to the prettified key). `color` is the colour
/// read from the faction's `color` block, if any.
pub fn parse_faction(
    file_bytes: &[u8],
    key: &str,
    b: &Block,
    loc: &[(String, String)],
    file: &str,
    origin: &str,
    color: Option<[u8; 3]>,
) -> (r: RebelFaction)
    ensures
        faction_view(r) == faction_spec(file_bytes@, key@, *b, loc_view(loc@), file@, origin@, color),
{
    let sc = scalar_specs();
    let sb = script_specs();
    let scalars = scalars_of(b, &sc);
    let script_blocks = scripts_of(b, &sb);
    let modeled = modeled_list(&sc, &sb);
    let raw_extra = unmodeled(b, &modeled);
    let mut path: Vec<String> = Vec::new();
    path.push(key.to_string());
    proof {
        assert(crate::mod_writer::string_path(path@) =~= seq![vstd::utf8::encode_utf8(key@)]);
    }
    let raw = raw_block(file_bytes, path.as_slice());
    let name_key = suffixed(key, "_name");
    let title_key = suffixed(key, "_title");
    let desc_key = suffixed(key, "_desc");
    let name_loc = loc_lookup(loc, &name_key);
    let title_loc = loc_lookup(loc, &title_key);
    let desc_loc = loc_lookup(loc, &desc_key);
    let title = match &title_loc {
        Some(t) => t.clone(),
        None => prettify(key),
    };
    RebelFaction {
        key: key.to_string(),
        file: file.to_string(),
        origin: origin.to_string(),
        title,
        name_key,
        name_loc,
        title_key,
        title_loc,
        desc_key,
        desc_loc,
        color,
        scalars,
        script_blocks,
        raw_extra,
        raw,
    }
}

// ---------------------------------------------------------------------------
// Scaffold
// ---------------------------------------------------------------------------

/// The block text a new rebel type `key` scaffolds to (a minimal game-valid
/// faction).
pub open spec fn faction_text(key: Seq<char>) -> Seq<char> {
    key + " = {\n\tcolor = { 150 150 150 }\n\tarea = nation\n\tgovernment = any\n\tdefection = none\n\tindependence = none\n\tdefect_delay = 120\n\tgfx_type = culture_province\n\tunit_transfer = no\n\twill_relocate = yes\n\tresilient = no\n\treinforcing = yes\n\tgeneral = yes\n\tsmart = yes\n\tartillery = 0.0\n\tinfantry = 0.7\n\tcavalry = 0.3\n\tmorale = 1.0\n\thandle_action_negotiate = yes\n\thandle_action_stability = yes\n\thandle_action_build_core = yes\n\thandle_action_send_missionary = yes\n\tspawn_chance = {\n\t\tfactor = 1\n\t}\n\tmovement_evaluation = {\n\t\tfactor = 1\n\t}\n\tsiege_won_trigger = {\n\t\talways = yes\n\t}\n\tsiege_won_effect = {\n\t\tadd_local_autonomy = 10\n\t}\n\tcan_negotiate_trigger = {\n\t\talways = yes\n\t}\n\tcan_enforce_trigger = {\n\t\talways = yes\n\t}\n\tdemands_description = \""@ + key + "_demand\"\n\tdemands_enforced_effect = {\n\t\tadd_prestige = -10\n\t}\n}"@
}

pub open spec fn loc_entries_view(v: Seq<LocEntry>) -> Seq<(Seq<char>, Seq<char>)> {
    v.map_values(|e: LocEntry| (e.key@, e.value@))
}

/// Minimal game-valid rebel type, with its name/title/desc/demand loc entries
/// (prettified key).
pub fn scaffold_faction(key: &str) -> (r: Scaffold)
    ensures
        r.key@ == key@,
        r.file@ == REBELS_PROJECT_FILE@,
        r.text@ == faction_text(key@),
        loc_entries_view(r.loc_entries@) == seq![
            (key@ + "_name"@, prettify_spec(key@)),
            (key@ + "_title"@, prettify_spec(key@)),
            (key@ + "_desc"@, prettify_spec(key@) + " rebels."@),
            (key@ + "_demand"@, prettify_spec(key@) + " Demands"@),
        ],
{
    let mut text = String::from_str(key);
    text.append(" = {\n\tcolor = { 150 150 150 }\n\tarea = nation\n\tgovernment = any\n\tdefection = none\n\tindependence = none\n\tdefect_delay = 120\n\tgfx_type = culture_province\n\tunit_transfer = no\n\twill_relocate = yes\n\tresilient = no\n\treinforcing = yes\n\tgeneral = yes\n\tsmart = yes\n\tartillery = 0.0\n\tinfantry = 0.7\n\tcavalry = 0.3\n\tmorale = 1.0\n\thandle_action_negotiate = yes\n\thandle_action_stability = yes\n\thandle_action_build_core = yes\n\thandle_action_send_missionary = yes\n\tspawn_chance = {\n\t\tfactor = 1\n\t}\n\tmovement_evaluation = {\n\t\tfactor = 1\n\t}\n\tsiege_won_trigger = {\n\t\talways = yes\n\t}\n\tsiege_won_effect = {\n\t\tadd_local_autonomy = 10\n\t}\n\tcan_negotiate_trigger = {\n\t\talways = yes\n\t}\n\tcan_enforce_trigger = {\n\t\talways = yes\n\t}\n\tdemands_description = \"");
    text.append(key);
    text.append("_demand\"\n\tdemands_enforced_effect = {\n\t\tadd_prestige = -10\n\t}\n}");
    let pretty = prettify(key);
    let mut entries: Vec<LocEntry> = Vec::new();
    entries.push(LocEntry { key: suffixed(key, "_name"), value: pretty.clone() });
    entries.push(LocEntry { key: suffixed(key, "_title"), value: pretty.clone() });
    let mut d = pretty.clone();
    d.append(" rebels.");
    entries.push(LocEntry { key: suffixed(key, "_desc"), value: d });
    let mut m = pretty.clone();
    m.append(" Demands");
    entries.push(LocEntry { key: suffixed(key, "_demand"), value: m });
    assert(loc_entries_view(entries@) =~= seq![
        (key@ + "_name"@, prettify_spec(key@)),
        (key@ + "_title"@, prettify_spec(key@)),
        (key@ + "_desc"@, prettify_spec(key@) + " rebels."@),
        (key@ + "_demand"@, prettify_spec(key@) + " Demands"@),
    ]);
    Scaffold { key: key.to_string(), file: String::from_str(REBELS_PROJECT_FILE), text, loc_entries: entries }
}

// ---------------------------------------------------------------------------
// Provinces in revolt
// ---------------------------------------------------------------------------

/// Index of the first occurrence of `p` in `s` at or after `i`.
pub open spec fn first_sub_from(s: Seq<char>, p: Seq<char>, i: int) -> Option<int>
    decreases s.len() + 1 - i,
{
    if i < 0 || i + p.len() > s.len() {
        None
    } else if s.subrange(i, i + p.len()) == p {
        Some(i)
    } else {
        first_sub_from(s, p, i + 1)
    }
}

/// A file name without its `.txt` suffix.
pub open spec fn txt_stem(file: Seq<char>) -> Seq<char> {
    if file.len() >= 4 && file.subrange(file.len() - 4, file.len() as int) == ".txt"@ {
        file.subrange(0, file.len() - 4)
    } else {
        file
    }
}

/// The province name a history file name carries: what follows the first
/// `" - "` (else the first `-`), trimmed; else the whole stem.
pub open spec fn name_from_file_spec(file: Seq<char>) -> Seq<char> {
    let stem = txt_stem(file);
    match first_sub_from(stem, " - "@, 0) {
        Some(i) => trim_spec(stem.subrange(i + 3, stem.len() as int), false),
        None => match first_sub_from(stem, "-"@, 0) {
            Some(i) => trim_spec(stem.subrange(i + 1, stem.len() as int), false),
            None => stem,
        },
    }
}

pub(crate) proof fn lemma_first_sub(s: Seq<char>, p: Seq<char>, i: int)
    requires
        0 <= i,
    ensures
        first_sub_from(s, p, i) matches Some(j) ==> i <= j && j + p.len() <= s.len(),
    decreases s.len() + 1 - i,
{
    if i + p.len() <= s.len() && s.subrange(i, i + p.len()) != p {
        lemma_first_sub(s, p, i + 1);
    }
}

/// First index at or after `i` where `p` starts in `cs[..n]`.
pub(crate) fn find_pattern(cs: &Vec<char>, n: usize, p: &Vec<char>) -> (r: Option<usize>)
    requires
        n <= cs@.len(),
        p@.len() > 0,
    ensures
        r == match first_sub_from(cs@.subrange(0, n as int), p@, 0) {
            Some(j) => Some(j as usize),
            None => None::<usize>,
        },
{
    let ghost s = cs@.subrange(0, n as int);
    let m = p.len();
    let mut i: usize = 0;
    if m > n {
        return None;
    }
    while i <= n - m
        invariant
            i <= n,
            m <= n,
            n <= cs@.len(),
            m == p@.len(),
            m > 0,
            s == cs@.subrange(0, n as int),
            first_sub_from(s, p@, i as int) == first_sub_from(s, p@, 0),
        decreases n - i,
    {
        let mut j: usize = 0;
        while j < m && cs[i + j] == p[j]
            invariant
                j <= m,
                i + m <= n,
                n <= cs@.len(),
                m == p@.len(),
                forall|k: int| 0 <= k < j ==> cs@[i + k] == p@[k],
            decreases m - j,
        {
            j = j + 1;
        }
        if j == m {
            assert(s.subrange(i as int, i + m) =~= p@);
            return Some(i);
        }
        assert(s.subrange(i as int, i + m)[j as int] == cs@[i + j]);
        assert(s.subrange(i as int, i + m) != p@);
        i = i + 1;
    }
    None
}

pub(crate) fn chars_from(cs: &Vec<char>, a: usize, b: usize) -> (r: Vec<char>)
    requires
        a <= b <= cs@.len(),
    ensures
        r@ == cs@.subrange(a as int, b as int),
{
    let mut out: Vec<char> = Vec::new();
    let mut i = a;
    while i < b
        invariant
            a <= i <= b,
            b <= cs@.len(),
            out@ == cs@.subrange(a as int, i as int),
        decreases b - i,
    {
        out.push(cs[i]);
        assert(out@ =~= cs@.subrange(a as int, i + 1));
        i = i + 1;
    }
    out
}

/// `"1016 - Ha Tinh.txt"` gives `"Ha Tinh"`; `"1-Uppland.txt"` gives
/// `"Uppland"`.
pub fn province_name_from_file(file: &str) -> (r: String)
    ensures
        r@ == name_from_file_spec(file@),
{
    let cs = chars_of(file);
    let n = cs.len();
    proof {
        reveal_strlit(".txt");
        reveal_strlit(" - ");
        reveal_strlit("-");
    }
    let stem_len = if n >= 4 && cs[n - 4] == '.' && cs[n - 3] == 't' && cs[n - 2] == 'x' && cs[n - 1] == 't' {
        assert(cs@.subrange(n - 4, n as int) =~= ".txt"@);
        n - 4
    } else {
        assert(n >= 4 ==> cs@.subrange(n - 4, n as int)[0] == cs@[n - 4]);
        assert(n >= 4 ==> cs@.subrange(n - 4, n as int)[1] == cs@[n - 3]);
        assert(n >= 4 ==> cs@.subrange(n - 4, n as int)[2] == cs@[n - 2]);
        assert(n >= 4 ==> cs@.subrange(n - 4, n as int)[3] == cs@[n - 1]);
        assert(n >= 4 ==> cs@.subrange(n - 4, n as int) != ".txt"@);
        n
    };
    let ghost stem = cs@.subrange(0, stem_len as int);
    assert(stem =~= txt_stem(file@));
    let mut dash3: Vec<char> = Vec::new();
    dash3.push(' ');
    dash3.push('-');
    dash3.push(' ');
    assert(dash3@ =~= " - "@);
    let mut dash1: Vec<char> = Vec::new();
    dash1.push('-');
    assert(dash1@ =~= "-"@);
    proof {
        lemma_first_sub(stem, " - "@, 0);
        lemma_first_sub(stem, "-"@, 0);
    }
    match find_pattern(&cs, stem_len, &dash3) {
        Some(i) => {
            let rest = chars_from(&cs, i + 3, stem_len);
            assert(rest@ =~= stem.subrange(i + 3, stem.len() as int));
            let t = trim_chars(rest.as_slice(), false);
            string_from_chars(t.as_slice())
        },
        None => match find_pattern(&cs, stem_len, &dash1) {
            Some(i) => {
                let rest = chars_from(&cs, i + 1, stem_len);
                assert(rest@ =~= stem.subrange(i + 1, stem.len() as int));
                let t = trim_chars(rest.as_slice(), false);
                string_from_chars(t.as_slice())
            },
            None => {
                let all = chars_from(&cs, 0, stem_len);
                string_from_chars(all.as_slice())
            },
        },
    }
}

/// One past the run of ASCII digits starting at `i`.
pub open spec fn digit_end(b: Seq<u8>, i: int) -> int
    decreases b.len() - i,
{
    if i < 0 || i >= b.len() || !is_digit(b[i]) {
        i
    } else {
        digit_end(b, i + 1)
    }
}

/// The province id a history file name starts with: its leading ASCII
/// digits read as a `u32`.
pub open spec fn file_id(name: Seq<char>) -> Option<u32> {
    let b = vstd::utf8::encode_utf8(name);
    match parse_unsigned(b.subrange(0, digit_end(b, 0)), u32::MAX as nat) {
        Some(v) => Some(v as u32),
        None => None,
    }
}

proof fn lemma_digit_end(b: Seq<u8>, i: int)
    requires
        0 <= i <= b.len(),
    ensures
        i <= digit_end(b, i) <= b.len(),
    decreases b.len() - i,
{
    if i < b.len() && is_digit(b[i]) {
        lemma_digit_end(b, i + 1);
    }
}

pub(crate) fn leading_id(name: &str) -> (r: Option<u32>)
    ensures
        r == file_id(name@),
{
    let b = name.as_bytes();
    let ghost bs = vstd::utf8::encode_utf8(name@);
    assert(b@ == bs);
    proof {
        lemma_digit_end(bs, 0);
    }
    let mut i: usize = 0;
    while i < b.len() && 48 <= b[i] && b[i] <= 57
        invariant
            i <= b@.len(),
            b@ == bs,
            digit_end(bs, i as int) == digit_end(bs, 0),
        decreases b@.len() - i,
    {
        i = i + 1;
    }
    let mut digits: Vec<u8> = Vec::new();
    let mut j: usize = 0;
    while j < i
        invariant
            j <= i <= b@.len(),
            digits@ == b@.subrange(0, j as int),
        decreases i - j,
    {
        digits.push(b[j]);
        assert(digits@ =~= b@.subrange(0, j + 1));
        j = j + 1;
    }
    match parse_unsigned_bytes(digits.as_slice(), 0xFFFF_FFFFu64) {
        Some(v) => Some(v as u32),
        None => None,
    }
}

/// Whether a `revolt = { … }` block is a revolt of `faction`: not empty and
/// its `type` is `faction`.
pub open spec fn revolt_matches(rb: Seq<(Option<Seq<char>>, VValue)>, faction: Seq<char>) -> bool {
    rb.len() > 0 && scalar_of(rb, "type"@) == Some(faction)
}

/// The revolt state after the first `n` items of a history file, at date
/// `at`: the top-level `revolt` block sets the baseline (no date), then
/// each dated block (in file order) dated no later than `at` that holds a
/// `revolt` block replaces it, with its date; `None` when nothing set it.
/// The flag says whether the revolt is one of `faction`.
pub open spec fn revolt_fold(items: Seq<(Option<Seq<char>>, VValue)>, faction: Seq<char>, at: (u32, u32, u32), n: int) -> Option<(bool, Option<Seq<char>>)>
    decreases n,
{
    if n <= 0 {
        match vblock_of(items, "revolt"@) {
            Some(rb) => Some((revolt_matches(rb, faction), None)),
            None => None,
        }
    } else {
        let prev = revolt_fold(items, faction, at, n - 1);
        match items[n - 1] {
            (Some(k), VValue::Block(db)) => match parse_date_spec(vstd::utf8::encode_utf8(k)) {
                Some(d) => if !date_lt(at, d) {
                    match vblock_of(db, "revolt"@) {
                        Some(rb) => Some((revolt_matches(rb, faction), Some(k))),
                        None => prev,
                    }
                } else {
                    prev
                },
                None => prev,
            },
            _ => prev,
        }
    }
}

pub open spec fn revolt_view(r: Option<(bool, Option<String>)>) -> Option<(bool, Option<Seq<char>>)> {
    match r {
        Some((m, d)) => Some((m, opt_view(d))),
        None => None,
    }
}

fn revolt_on(rb: &Block, faction: &str) -> (r: bool)
    ensures
        r == revolt_matches(rb.vview(), faction@),
{
    proof {
        lemma_items_vview_index(rb.items@);
    }
    if rb.items.len() == 0 {
        return false;
    }
    match rb.get_scalar("type") {
        Some(t) => str_eq(t, faction),
        None => false,
    }
}

/// The folded revolt state of a parsed history file at `at` (see
/// [`revolt_fold`]).
pub fn revolt_state(block: &Block, faction: &str, at: (u32, u32, u32)) -> (r: Option<(bool, Option<String>)>)
    ensures
        revolt_view(r) == revolt_fold(block.vview(), faction@, at, block.vview().len() as int),
{
    proof {
        lemma_items_vview_index(block.items@);
        lemma_block_view(block.items@, "revolt"@);
    }
    let ghost items = block.vview();
    let mut st: Option<(bool, Option<String>)> = match block.get_block("revolt") {
        Some(rb) => Some((revolt_on(rb, faction), None)),
        None => None,
    };
    let mut i: usize = 0;
    while i < block.items.len()
        invariant
            i <= block.items@.len(),
            items == block.vview(),
            items.len() == block.items@.len(),
            forall|k: int| 0 <= k < block.items@.len() ==> #[trigger] items[k] == (key_view(block.items@[k].0), block.items@[k].1.vview()),
            revolt_view(st) == revolt_fold(items, faction@, at, i as int),
        decreases block.items@.len() - i,
    {
        assert(items[i as int] == (key_view(block.items@[i as int].0), block.items@[i as int].1.vview()));
        match (&block.items[i].0, &block.items[i].1) {
            (Some(k), Value::Block(db)) => {
                match parse_date(k.as_str().as_bytes()) {
                    Some(d) => {
                        if !date_less(at, d) {
                            proof {
                                lemma_block_view(db.items@, "revolt"@);
                            }
                            match db.get_block("revolt") {
                                Some(rb) => {
                                    st = Some((revolt_on(rb, faction), Some(k.clone())));
                                },
                                None => {},
                            }
                        }
                    },
                    None => {},
                }
            },
            _ => {},
        }
        i = i + 1;
    }
    st
}

pub open spec fn rebel_view(p: RebelProvince) -> (u32, Seq<char>, Option<Seq<char>>) {
    (p.id, p.name@, opt_view(p.date))
}

pub open spec fn rebels_view(v: Seq<RebelProvince>) -> Seq<(u32, Seq<char>, Option<Seq<char>>)> {
    v.map_values(|p: RebelProvince| rebel_view(p))
}

/// The province a history file `(name, bytes)` lists when its revolt state
/// at `at` is a revolt of `faction`: its id, its name (`PROV<id>` localized,
/// else taken from the file name) and the date the revolt was set (none at
/// top level). Files that are not `.txt` or do not start with an id list
/// none.
pub open spec fn rebel_of_spec(
    loc: Seq<(Seq<char>, Seq<char>)>,
    name: Seq<char>,
    bytes: Seq<u8>,
    faction: Seq<char>,
    at: (u32, u32, u32),
) -> Option<(u32, Seq<char>, Option<Seq<char>>)> {
    if !is_txt_name(name) {
        None
    } else {
        match file_id(name) {
            None => None,
            Some(id) => {
                let items = parse_spec(lossy_utf8(bytes));
                match revolt_fold(items, faction, at, items.len() as int) {
                    Some((true, d)) => Some((
                        id,
                        match loc_get(loc, "PROV"@ + decimal(id as nat)) {
                            Some(n) => n,
                            None => name_from_file_spec(name),
                        },
                        d,
                    )),
                    _ => None,
                }
            },
        }
    }
}

/// The province of one history file, when it is in revolt of `faction` at
/// `at` (see [`rebel_of_spec`]).
pub fn rebel_province_of(loc: &[(String, String)], name: &str, bytes: &[u8], faction: &str, at: (u32, u32, u32)) -> (r: Option<RebelProvince>)
    ensures
        match r {
            Some(p) => rebel_of_spec(loc_view(loc@), name@, bytes@, faction@, at) == Some(rebel_view(p)),
            None => rebel_of_spec(loc_view(loc@), name@, bytes@, faction@, at) is None,
        },
{
    if !is_txt(name) {
        return None;
    }
    let id = match leading_id(name) {
        Some(id) => id,
        None => return None,
    };
    let text = lossy_string(bytes);
    let block = parse(text.as_str());
    match revolt_state(&block, faction, at) {
        Some((true, date)) => {
            let mut key = String::from_str("PROV");
            let digits = usize_to_string(id as usize);
            key.append(digits.as_str());
            proof {
                reveal_strlit("PROV");
            }
            assert(key@ == "PROV"@ + decimal(id as nat));
            let name_text = match loc_lookup(loc, &key) {
                Some(n) => n,
                None => province_name_from_file(name),
            };
            Some(RebelProvince { id, name: name_text, date })
        },
        _ => None,
    }
}

/// The provinces of the history files found in revolt of `faction`, in
/// file order.
pub open spec fn rebels_found(
    loc: Seq<(Seq<char>, Seq<char>)>,
    files: Seq<(Seq<char>, Seq<u8>)>,
    faction: Seq<char>,
    at: (u32, u32, u32),
) -> Seq<(u32, Seq<char>, Option<Seq<char>>)>
    decreases files.len(),
{
    if files.len() == 0 {
        Seq::empty()
    } else {
        let rest = rebels_found(loc, files.drop_last(), faction, at);
        match rebel_of_spec(loc, files.last().0, files.last().1, faction, at) {
            Some(p) => rest.push(p),
            None => rest,
        }
    }
}

/// First index at or after `j` whose id is greater than `id` (else the
/// length): where a stable sort by id places an entry with `id` after `t`.
pub open spec fn id_slot_from(t: Seq<(u32, Seq<char>, Option<Seq<char>>)>, id: u32, j: int) -> int
    decreases t.len() - j,
{
    if j < 0 || j >= t.len() {
        t.len() as int
    } else if id < t[j].0 {
        j
    } else {
        id_slot_from(t, id, j + 1)
    }
}

/// The stable sort by id (what `sort_by_key` on the id gives).
pub open spec fn sort_by_id(s: Seq<(u32, Seq<char>, Option<Seq<char>>)>) -> Seq<(u32, Seq<char>, Option<Seq<char>>)>
    decreases s.len(),
{
    if s.len() == 0 {
        s
    } else {
        let t = sort_by_id(s.drop_last());
        t.insert(id_slot_from(t, s.last().0, 0), s.last())
    }
}

proof fn lemma_id_slot(t: Seq<(u32, Seq<char>, Option<Seq<char>>)>, id: u32, j: int)
    requires
        0 <= j <= t.len(),
    ensures
        j <= id_slot_from(t, id, j) <= t.len(),
    decreases t.len() - j,
{
    if j < t.len() && !(id < t[j].0) {
        lemma_id_slot(t, id, j + 1);
    }
}

pub open spec fn files_view(files: Seq<(String, Vec<u8>)>) -> Seq<(Seq<char>, Seq<u8>)> {
    files.map_values(|f: (String, Vec<u8>)| (f.0@, f.1@))
}

/// The provinces of the history files `(name, bytes)` (as listed and read)
/// whose revolt state at `at` is a revolt of `faction`, sorted by id
/// (stably: equal ids keep the listing order).
pub fn rebel_provinces(files: &Vec<(String, Vec<u8>)>, loc: &[(String, String)], faction: &str, at: (u32, u32, u32)) -> (r: Vec<RebelProvince>)
    ensures
        rebels_view(r@) == sort_by_id(rebels_found(loc_view(loc@), files_view(files@), faction@, at)),
{
    let ghost fv = files_view(files@);
    let ghost lv = loc_view(loc@);
    let mut out: Vec<RebelProvince> = Vec::new();
    let mut i: usize = 0;
    assert(fv.take(0) =~= Seq::<(Seq<char>, Seq<u8>)>::empty());
    while i < files.len()
        invariant
            i <= files@.len(),
            fv == files_view(files@),
            fv.len() == files@.len(),
            lv == loc_view(loc@),
            rebels_view(out@) == sort_by_id(rebels_found(lv, fv.take(i as int), faction@, at)),
        decreases files@.len() - i,
    {
        assert(fv.take(i + 1).drop_last() =~= fv.take(i as int));
        assert(fv.take(i + 1).last() == fv[i as int]);
        assert(fv[i as int] == (files@[i as int].0@, files@[i as int].1@));
        let found = rebel_province_of(loc, files[i].0.as_str(), files[i].1.as_slice(), faction, at);
        match found {
            Some(p) => {
                let ghost t = rebels_view(out@);
                let ghost x = rebel_view(p);
                proof {
                    lemma_id_slot(t, p.id, 0);
                }
                let mut j: usize = 0;
                while j < out.len() && !(p.id < out[j].id)
                    invariant
                        j <= out@.len(),
                        t == rebels_view(out@),
                        x == rebel_view(p),
                        id_slot_from(t, p.id, j as int) == id_slot_from(t, p.id, 0),
                    decreases out@.len() - j,
                {
                    assert(t[j as int] == rebel_view(out@[j as int]));
                    j = j + 1;
                }
                if j < out.len() {
                    assert(t[j as int] == rebel_view(out@[j as int]));
                }
                assert(id_slot_from(t, p.id, j as int) == j);
                out.insert(j, p);
                assert(rebels_view(out@) =~= t.insert(j as int, x));
                let ghost prev = rebels_found(lv, fv.take(i as int), faction@, at);
                assert(rebels_found(lv, fv.take(i + 1), faction@, at) == prev.push(x));
                assert(prev.push(x).drop_last() =~= prev);
                assert(prev.push(x).last() == x);
                assert(sort_by_id(prev.push(x)) == t.insert(id_slot_from(t, x.0, 0), x));
            },
            None => {
                assert(rebels_found(lv, fv.take(i + 1), faction@, at) =~= rebels_found(lv, fv.take(i as int), faction@, at));
            },
        }
        i = i + 1;
    }
    assert(fv.take(files@.len() as int) =~= fv);
    out
}

proof fn lemma_id_slot_facts(t: Seq<(u32, Seq<char>, Option<Seq<char>>)>, id: u32, j: int)
    requires
        0 <= j <= t.len(),
    ensures
        forall|k: int| j <= k < id_slot_from(t, id, j) ==> #[trigger] t[k].0 <= id,
        id_slot_from(t, id, j) < t.len() ==> id < t[id_slot_from(t, id, j)].0,
    decreases t.len() - j,
{
    if j < t.len() && !(id < t[j].0) {
        lemma_id_slot_facts(t, id, j + 1);
    }
}

/// The provinces in revolt come out ordered by id, one per file found.
pub proof fn lemma_rebels_sorted(s: Seq<(u32, Seq<char>, Option<Seq<char>>)>)
    ensures
        forall|i: int, j: int| 0 <= i < j < sort_by_id(s).len() ==> (#[trigger] sort_by_id(s)[i]).0 <= (#[trigger] sort_by_id(s)[j]).0,
        sort_by_id(s).len() == s.len(),
    decreases s.len(),
{
    if s.len() > 0 {
        lemma_rebels_sorted(s.drop_last());
        let t = sort_by_id(s.drop_last());
        let x = s.last();
        lemma_id_slot(t, x.0, 0);
        lemma_id_slot_facts(t, x.0, 0);
        let p = id_slot_from(t, x.0, 0);
        let r = t.insert(p, x);
        assert forall|i: int, j: int| 0 <= i < j < r.len() implies (#[trigger] r[i]).0 <= (#[trigger] r[j]).0 by {
            if j == p {
                assert(r[i] == t[i]);
            } else if i == p {
                assert(r[j] == t[j - 1]);
                if j - 1 > p {
                    assert(t[p].0 <= t[j - 1].0);
                }
            } else {
                let i2 = if i < p { i } else { i - 1 };
                let j2 = if j < p { j } else { j - 1 };
                assert(r[i] == t[i2]);
                assert(r[j] == t[j2]);
            }
        }
    }
}

// ---------------------------------------------------------------------------
// Loading a file of factions
// ---------------------------------------------------------------------------

pub open spec fn factions_view(v: Seq<RebelFaction>) -> Seq<FactionView> {
    v.map_values(|f: RebelFaction| faction_view(f))
}

/// The colour read for the `i`th keyed block (none past the end).
pub open spec fn color_at(colors: Seq<Option<[u8; 3]>>, i: int) -> Option<[u8; 3]> {
    if 0 <= i < colors.len() {
        colors[i]
    } else {
        None
    }
}

/// The factions of a file: each top-level keyed block read as
/// [`parse_faction`] reads it, with the colour read for it.
pub open spec fn factions_spec(
    src: Seq<u8>,
    blocks: Seq<(Seq<char>, Block)>,
    loc: Seq<(Seq<char>, Seq<char>)>,
    file: Seq<char>,
    origin: Seq<char>,
    colors: Seq<Option<[u8; 3]>>,
) -> Seq<FactionView> {
    Seq::new(blocks.len(), |i: int| faction_spec(src, blocks[i].0, blocks[i].1, loc, file, origin, color_at(colors, i)))
}

/// The factions of a file with bytes `file_bytes` at project path `rel`,
/// from `origin`, given the colour read from each keyed block's `color`
/// block (by position): the file is decoded (lossily) and parsed, and every
/// top-level `key = { … }` block is read as a faction.
pub fn factions_of_file(
    file_bytes: &[u8],
    rel: &str,
    origin: &str,
    loc: &[(String, String)],
    colors: &[Option<[u8; 3]>],
) -> (r: Vec<RebelFaction>)
    ensures
        exists|b: Block| #![auto] b.vview() == parse_spec(lossy_utf8(file_bytes@))
            && factions_view(r@) == factions_spec(file_bytes@, keyed_blocks(b.items@), loc_view(loc@), rel@, origin@, colors@),
{
    let text = lossy_string(file_bytes);
    let block = parse(text.as_str());
    let kids = block.key_blocks();
    let ghost kb = keyed_blocks(block.items@);
    let mut out: Vec<RebelFaction> = Vec::new();
    let mut i: usize = 0;
    while i < kids.len()
        invariant
            i <= kids@.len(),
            kids@.len() == kb.len(),
            kb == keyed_blocks(block.items@),
            forall|k: int| 0 <= k < kids@.len() ==> (#[trigger] kids@[k]).0@ == kb[k].0 && *kids@[k].1 == kb[k].1,
            out@.len() == i,
            forall|k: int| 0 <= k < i ==> #[trigger] faction_view(out@[k]) == faction_spec(file_bytes@, kb[k].0, kb[k].1, loc_view(loc@), rel@, origin@, color_at(colors@, k)),
        decreases kids@.len() - i,
    {
        let color = if i < colors.len() { colors[i] } else { None };
        let f = parse_faction(file_bytes, kids[i].0, kids[i].1, loc, rel, origin, color);
        out.push(f);
        i = i + 1;
    }
    assert(factions_view(out@) =~= factions_spec(file_bytes@, kb, loc_view(loc@), rel@, origin@, colors@));
    assert(block.vview() == parse_spec(lossy_utf8(file_bytes@)));
    out
}

} // verus!
