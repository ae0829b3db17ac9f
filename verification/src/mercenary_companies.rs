//! Mercenary companies, province-anchored.
//!
//! `common/mercenary_companies/*.txt` holds one company block per top-level
//! key (`merc_black_army`, `twenty_good_men`, …), anchored to a province via
//! `home_province = <id>`:
//!
//! * Number scalars: `regiments_per_development`, `cost_modifier`,
//!   `cavalry_weight`, `artillery_weight`.
//! * Int scalars: `cavalry_cap`, `artillery_cap`, `min_size`, `max_size`,
//!   `manpower_pool`, `home_province` (the anchor).
//! * Bool scalars: `counts_towards_force_limit`, `no_additional_manpower_from_max_size`.
//! * String: `mercenary_desc_key` (a loc key reference).
//! * `sprites = { … }` — a bare-token list of unit sprite packs, edited as a
//!   space-joined string.
//! * `trigger = { … }` — recruitment condition; `modifier = { … }` — the
//!   company's combat modifier block (typed flat rows).
//! * Everything unmodeled round-trips untouched (`raw_extra`).
//!
//! Loc name is the bare block key.

use vstd::prelude::*;
use crate::fields::{
    contains_text, block_present, has_block, raw_block, raw_text, texts, trimmed_scalar, trimmed_value, unmodeled,
    unmodeled_keys,
};
use crate::missions::u32_of;
use crate::on_actions::{bare_strings, named_block};
use crate::mechanics::{
    is_txt, is_txt_name, lemma_insert_sorted, lemma_lex_total, lemma_lex_transitive, lex_less, lex_lt, sorted_by_key,
};
use crate::paradox::{bare_texts, keyed_blocks, parse, parse_spec, Block, Value};
use crate::script_tree::{trim_chars, trim_spec};
use crate::text::{
    chars_of, decimal, loc_get, loc_lookup, loc_view, lossy_string, lossy_utf8, opt_view, str_eq, parse_unsigned_bytes, prettify, prettify_spec,
    string_from_chars, strings_of, usize_to_string,
};

verus! {

/// The game location holding mercenary companies.
pub const MERC_DIR: &'static str = "common/mercenary_companies";

/// Toolkit-owned project file new companies scaffold into.
pub const MERC_PROJECT_FILE: &'static str = "common/mercenary_companies/zz_eutoolkit_mercenaries.txt";

/// One flat `key = value` modifier row.
#[derive(Debug)]
pub struct ModRow {
    pub key: String,
    pub value: String,
}

/// One typed scalar of a company.
#[derive(Debug)]
pub struct Scalar {
    pub key: String,
    pub kind: String,
    pub present: bool,
    pub value: String,
}

/// The company's `modifier` block: typed rows when it is flat.
#[derive(Debug)]
pub struct ModifierBlockRef {
    pub name: String,
    pub present: bool,
    pub flat: bool,
    pub rows: Vec<ModRow>,
}

/// One mercenary company.
#[derive(Debug)]
pub struct MercenaryCompany {
    pub key: String,
    pub file: String,
    pub origin: String,
    pub home_province: u32,
    pub name_key: String,
    pub name_loc: Option<String>,
    pub scalars: Vec<Scalar>,
    /// Space-joined `sprites = { … }` tokens (empty when absent).
    pub sprites: String,
    pub sprites_present: bool,
    /// `trigger` block presence.
    pub trigger_present: bool,
    pub modifier: ModifierBlockRef,
    pub raw_extra: Vec<String>,
    pub raw: String,
}

/// The companies anchored to one province, plus the file new ones scaffold into.
#[derive(Debug)]
pub struct ProvinceMercenaries {
    pub companies: Vec<MercenaryCompany>,
    pub project_file: String,
}

/// One loc key to queue with its text.
#[derive(Debug)]
pub struct LocEntry {
    pub key: String,
    pub value: String,
}

/// A create scaffold: the block text, its file, and the loc entries to queue.
#[derive(Debug)]
pub struct Scaffold {
    pub key: String,
    pub file: String,
    pub text: String,
    pub loc_entries: Vec<LocEntry>,
}

// ---------------------------------------------------------------------------
// Schema
// ---------------------------------------------------------------------------

/// The typed scalars: key and kind.
pub open spec fn merc_scalars() -> Seq<(Seq<char>, Seq<char>)> {
    seq![
        ("home_province"@, "int"@),
        ("regiments_per_development"@, "num"@),
        ("cost_modifier"@, "num"@),
        ("cavalry_weight"@, "num"@),
        ("artillery_weight"@, "num"@),
        ("cavalry_cap"@, "int"@),
        ("artillery_cap"@, "int"@),
        ("min_size"@, "int"@),
        ("max_size"@, "int"@),
        ("manpower_pool"@, "int"@),
        ("counts_towards_force_limit"@, "bool"@),
        ("no_additional_manpower_from_max_size"@, "bool"@),
        ("mercenary_desc_key"@, "str"@)
    ]
}

pub open spec fn pairs_view(v: Seq<(&str, &str)>) -> Seq<(Seq<char>, Seq<char>)> {
    v.map_values(|r: (&str, &str)| (r.0@, r.1@))
}

fn scalar_specs() -> (r: Vec<(&'static str, &'static str)>)
    ensures
        pairs_view(r@) == merc_scalars(),
{
    let v = vec![
        ("home_province", "int"),
        ("regiments_per_development", "num"),
        ("cost_modifier", "num"),
        ("cavalry_weight", "num"),
        ("artillery_weight", "num"),
        ("cavalry_cap", "int"),
        ("artillery_cap", "int"),
        ("min_size", "int"),
        ("max_size", "int"),
        ("manpower_pool", "int"),
        ("counts_towards_force_limit", "bool"),
        ("no_additional_manpower_from_max_size", "bool"),
        ("mercenary_desc_key", "str"),
    ];
    assert(pairs_view(v@) =~= merc_scalars());
    v
}

pub open spec fn first_of2(r: (Seq<char>, Seq<char>)) -> Seq<char> {
    r.0
}

/// The top-level keys the company editor models.
pub open spec fn modeled_keys() -> Seq<Seq<char>> {
    merc_scalars().map_values(|r: (Seq<char>, Seq<char>)| first_of2(r)) + seq!["sprites"@, "trigger"@, "modifier"@]
}

fn modeled_list(sc: &Vec<(&'static str, &'static str)>) -> (r: Vec<&'static str>)
    requires
        pairs_view(sc@) == merc_scalars(),
    ensures
        texts(r@) == modeled_keys(),
{
    let ghost a = merc_scalars().map_values(|r: (Seq<char>, Seq<char>)| first_of2(r));
    let mut v: Vec<&'static str> = Vec::new();
    let mut i: usize = 0;
    while i < sc.len()
        invariant
            i <= sc@.len(),
            pairs_view(sc@) == merc_scalars(),
            a == merc_scalars().map_values(|r: (Seq<char>, Seq<char>)| first_of2(r)),
            texts(v@) == a.subrange(0, i as int),
        decreases sc@.len() - i,
    {
        let ghost before = v@;
        v.push(sc[i].0);
        assert(pairs_view(sc@)[i as int].0 == sc@[i as int].0@);
        assert(a[i as int] == sc@[i as int].0@);
        assert(texts(v@) =~= texts(before).push(sc@[i as int].0@));
        assert(texts(v@) =~= a.subrange(0, i + 1));
        i = i + 1;
    }
    assert(a.subrange(0, sc@.len() as int) =~= a);
    let ghost mid = texts(v@);
    v.push("sprites");
    v.push("trigger");
    v.push("modifier");
    assert(texts(v@) =~= mid + seq!["sprites"@, "trigger"@, "modifier"@]);
    v
}

// ---------------------------------------------------------------------------
// Parse
// ---------------------------------------------------------------------------

/// The view of a typed scalar: key, kind, present, value.
pub open spec fn scalar_view(s: Scalar) -> (Seq<char>, Seq<char>, bool, Seq<char>) {
    (s.key@, s.kind@, s.present, s.value@)
}

pub open spec fn scalars_view(v: Seq<Scalar>) -> Seq<(Seq<char>, Seq<char>, bool, Seq<char>)> {
    v.map_values(|s: Scalar| scalar_view(s))
}

/// A scalar of the schema read from the company's items.
pub open spec fn scalar_spec(items: Seq<(Option<String>, Value)>, r: (Seq<char>, Seq<char>)) -> (Seq<char>, Seq<char>, bool, Seq<char>) {
    match trimmed_value(items, r.0) {
        Some(v) => (r.0, r.1, true, v),
        None => (r.0, r.1, false, Seq::empty()),
    }
}

pub open spec fn rows_view(v: Seq<ModRow>) -> Seq<(Seq<char>, Seq<char>)> {
    v.map_values(|r: ModRow| (r.key@, r.value@))
}

/// The rows of a block whose every item is `key = scalar` (values trimmed),
/// or `None` when it holds anything else.
pub open spec fn flat_rows_spec(items: Seq<(Option<String>, Value)>) -> Option<Seq<(Seq<char>, Seq<char>)>>
    decreases items.len(),
{
    if items.len() == 0 {
        Some(Seq::empty())
    } else {
        match (flat_rows_spec(items.drop_last()), items.last()) {
            (Some(rest), (Some(k), Value::Scalar(v))) => Some(rest.push((k@, trim_spec(v@, false)))),
            _ => None,
        }
    }
}

/// The company's `modifier` block: (present, flat, rows).
pub open spec fn modifier_spec(items: Seq<(Option<String>, Value)>) -> (bool, bool, Seq<(Seq<char>, Seq<char>)>) {
    match named_block(items, "modifier"@) {
        None => (false, true, Seq::empty()),
        Some(mb) => match flat_rows_spec(mb.items@) {
            Some(rows) => (true, true, rows),
            None => (true, false, Seq::empty()),
        },
    }
}

/// The texts joined with single spaces.
pub open spec fn joined(v: Seq<Seq<char>>) -> Seq<char>
    decreases v.len(),
{
    if v.len() == 0 {
        Seq::empty()
    } else if v.len() == 1 {
        v[0]
    } else {
        joined(v.drop_last()) + " "@ + v.last()
    }
}

/// The spec view of a company.
pub struct CompanyView {
    pub key: Seq<char>,
    pub file: Seq<char>,
    pub origin: Seq<char>,
    pub home_province: u32,
    pub name_key: Seq<char>,
    pub name_loc: Option<Seq<char>>,
    pub scalars: Seq<(Seq<char>, Seq<char>, bool, Seq<char>)>,
    pub sprites: Seq<char>,
    pub sprites_present: bool,
    pub trigger_present: bool,
    pub modifier: (bool, bool, Seq<(Seq<char>, Seq<char>)>),
    pub raw_extra: Seq<Seq<char>>,
    pub raw: Seq<char>,
}

pub open spec fn company_view(c: MercenaryCompany) -> CompanyView {
    CompanyView {
        key: c.key@,
        file: c.file@,
        origin: c.origin@,
        home_province: c.home_province,
        name_key: c.name_key@,
        name_loc: opt_view(c.name_loc),
        scalars: scalars_view(c.scalars@),
        sprites: c.sprites@,
        sprites_present: c.sprites_present,
        trigger_present: c.trigger_present,
        modifier: (c.modifier.present, c.modifier.flat, rows_view(c.modifier.rows@)),
        raw_extra: strings_of(c.raw_extra@),
        raw: c.raw@,
    }
}

/// The company read from the block `b` keyed `key` in a file with bytes `src`.
pub open spec fn company_spec(
    src: Seq<u8>,
    key: Seq<char>,
    b: Block,
    loc: Seq<(Seq<char>, Seq<char>)>,
    file: Seq<char>,
    origin: Seq<char>,
) -> CompanyView {
    let items = b.items@;
    CompanyView {
        key,
        file,
        origin,
        home_province: match trimmed_value(items, "home_province"@) {
            Some(t) => match u32_of(t) {
                Some(v) => v,
                None => 0,
            },
            None => 0,
        },
        name_key: key,
        name_loc: loc_get(loc, key),
        scalars: merc_scalars().map_values(|r: (Seq<char>, Seq<char>)| scalar_spec(items, r)),
        sprites: match named_block(items, "sprites"@) {
            Some(sb) => joined(bare_texts(sb.items@)),
            None => Seq::empty(),
        },
        sprites_present: named_block(items, "sprites"@) is Some,
        trigger_present: has_block(items, "trigger"@),
        modifier: modifier_spec(items),
        raw_extra: unmodeled_keys(items, modeled_keys()),
        raw: raw_text(src, seq![vstd::utf8::encode_utf8(key)]),
    }
}

fn scalars_of(b: &Block, sc: &Vec<(&'static str, &'static str)>) -> (r: Vec<Scalar>)
    requires
        pairs_view(sc@) == merc_scalars(),
    ensures
        scalars_view(r@) == merc_scalars().map_values(|q: (Seq<char>, Seq<char>)| scalar_spec(b.items@, q)),
{
    let ghost want = merc_scalars().map_values(|q: (Seq<char>, Seq<char>)| scalar_spec(b.items@, q));
    let mut out: Vec<Scalar> = Vec::new();
    let mut i: usize = 0;
    while i < sc.len()
        invariant
            i <= sc@.len(),
            pairs_view(sc@) == merc_scalars(),
            want == merc_scalars().map_values(|q: (Seq<char>, Seq<char>)| scalar_spec(b.items@, q)),
            scalars_view(out@) == want.subrange(0, i as int),
        decreases sc@.len() - i,
    {
        let row = &sc[i];
        let val = trimmed_scalar(b, row.0);
        let present = val.is_some();
        let value = match val {
            Some(v) => v,
            None => String::new(),
        };
        let ghost before = out@;
        out.push(Scalar { key: row.0.to_string(), kind: row.1.to_string(), present, value });
        proof {
            assert(pairs_view(sc@)[i as int] == (row.0@, row.1@));
            assert(scalars_view(out@) =~= scalars_view(before).push(scalar_view(out@.last())));
        }
        assert(scalars_view(out@) =~= want.subrange(0, i + 1));
        i = i + 1;
    }
    assert(want.subrange(0, sc@.len() as int) =~= want);
    out
}

/// Flat `k = scalar` rows of a block (values trimmed), or `None` if it holds
/// anything else.
fn flat_rows(b: &Block) -> (r: Option<Vec<ModRow>>)
    ensures
        match r {
            Some(v) => flat_rows_spec(b.items@) == Some(rows_view(v@)),
            None => flat_rows_spec(b.items@) is None,
        },
{
    let mut rows: Vec<ModRow> = Vec::new();
    let mut i: usize = 0;
    while i < b.items.len()
        invariant
            i <= b.items@.len(),
            flat_rows_spec(b.items@.subrange(0, i as int)) == Some(rows_view(rows@)),
        decreases b.items@.len() - i,
    {
        let ghost before = rows@;
        assert(b.items@.subrange(0, i + 1).drop_last() =~= b.items@.subrange(0, i as int));
        match &b.items[i] {
            (Some(k), Value::Scalar(s)) => {
                let cs = chars_of(s.as_str());
                let t = trim_chars(cs.as_slice(), false);
                rows.push(ModRow { key: k.clone(), value: string_from_chars(t.as_slice()) });
                assert(rows_view(rows@) =~= rows_view(before).push((k@, trim_spec(s@, false))));
            },
            _ => {
                proof {
                    lemma_flat_none(b.items@, i + 1);
                }
                return None;
            },
        }
        i = i + 1;
    }
    assert(b.items@.subrange(0, b.items@.len() as int) =~= b.items@);
    Some(rows)
}

proof fn lemma_flat_none(items: Seq<(Option<String>, Value)>, n: int)
    requires
        0 < n <= items.len(),
        flat_rows_spec(items.subrange(0, n)) is None,
    ensures
        flat_rows_spec(items) is None,
    decreases items.len() - n,
{
    if n < items.len() {
        assert(items.subrange(0, n + 1).drop_last() =~= items.subrange(0, n));
        lemma_flat_none(items, n + 1);
    } else {
        assert(items.subrange(0, n) =~= items);
    }
}

fn join_spaced(v: &Vec<String>) -> (r: String)
    ensures
        r@ == joined(strings_of(v@)),
{
    let mut s = String::new();
    let mut i: usize = 0;
    while i < v.len()
        invariant
            i <= v@.len(),
            s@ == joined(strings_of(v@).subrange(0, i as int)),
        decreases v@.len() - i,
    {
        let ghost sub = strings_of(v@).subrange(0, i + 1);
        assert(sub.drop_last() =~= strings_of(v@).subrange(0, i as int));
        if i > 0 {
            s.append(" ");
        }
        s.append(v[i].as_str());
        assert(s@ =~= joined(sub));
        i = i + 1;
    }
    assert(strings_of(v@).subrange(0, v@.len() as int) =~= strings_of(v@));
    s
}

fn parse_home(b: &Block) -> (r: u32)
    ensures
        r == match trimmed_value(b.items@, "home_province"@) {
            Some(t) => match u32_of(t) {
                Some(v) => v,
                None => 0,
            },
            None => 0,
        },
{
    match trimmed_scalar(b, "home_province") {
        Some(t) => match parse_unsigned_bytes(t.as_str().as_bytes(), 0xFFFF_FFFFu64) {
            Some(v) => v as u32,
            None => 0,
        },
        None => 0,
    }
}

/// Reads one company: its anchor province (0 when absent or not a `u32`),
/// typed scalars, space-joined sprites, the `modifier` block's rows, the
/// trigger's presence, the unmodeled keys and the raw block text, with its
/// name resolved against `loc`.
pub fn parse_company(file_bytes: &[u8], key: &str, b: &Block, loc: &[(String, String)], file: &str, origin: &str) -> (r: MercenaryCompany)
    ensures
        company_view(r) == company_spec(file_bytes@, key@, *b, loc_view(loc@), file@, origin@),
{
    let sc = scalar_specs();
    let scalars = scalars_of(b, &sc);
    let modeled = modeled_list(&sc);
    let raw_extra = unmodeled(b, &modeled);
    let sprites_block = b.get_block("sprites");
    let sprites = match sprites_block {
        Some(sb) => {
            let toks = bare_strings(sb);
            join_spaced(&toks)
        },
        None => String::new(),
    };
    let modifier = match b.get_block("modifier") {
        None => {
            let rows: Vec<ModRow> = Vec::new();
            assert(rows_view(rows@) =~= Seq::<(Seq<char>, Seq<char>)>::empty());
            ModifierBlockRef { name: String::from_str("modifier"), present: false, flat: true, rows }
        },
        Some(mb) => match flat_rows(mb) {
            Some(rows) => ModifierBlockRef { name: String::from_str("modifier"), present: true, flat: true, rows },
            None => {
                let rows: Vec<ModRow> = Vec::new();
                assert(rows_view(rows@) =~= Seq::<(Seq<char>, Seq<char>)>::empty());
                ModifierBlockRef { name: String::from_str("modifier"), present: true, flat: false, rows }
            },
        },
    };
    let mut path: Vec<String> = Vec::new();
    path.push(key.to_string());
    proof {
        assert(crate::mod_writer::string_path(path@) =~= seq![vstd::utf8::encode_utf8(key@)]);
    }
    let raw = raw_block(file_bytes, path.as_slice());
    let key_s = key.to_string();
    let name_loc = loc_lookup(loc, &key_s);
    MercenaryCompany {
        key: key_s,
        file: file.to_string(),
        origin: origin.to_string(),
        home_province: parse_home(b),
        name_key: key.to_string(),
        name_loc,
        scalars,
        sprites,
        sprites_present: sprites_block.is_some(),
        trigger_present: block_present(b, "trigger"),
        modifier,
        raw_extra,
        raw,
    }
}

// ---------------------------------------------------------------------------
// Scaffold
// ---------------------------------------------------------------------------

/// The block text of a new company `key` anchored to province `id`.
pub open spec fn company_text(key: Seq<char>, id: u32) -> Seq<char> {
    key + " = {\n\tregiments_per_development = 0.04\n\thome_province = "@ + decimal(id as nat) + "\n\tcavalry_weight = 0.2\n\tcavalry_cap = 4\n\tcost_modifier = 1.0\n\tsprites = { westerngfx_sprite_pack }\n\ttrigger = {\n\t\tis_allowed_to_recruit_mercenaries = yes\n\t}\n\tmodifier = {\n\t\tland_morale = 0.05\n\t}\n}"@
}

/// Minimal game-valid mercenary company anchored to `province_id`, with its
/// name loc entry (prettified key). Its sprite pack is a base (non-DLC) one.
pub fn scaffold_company(key: &str, province_id: u32) -> (r: Scaffold)
    ensures
        r.key@ == key@,
        r.file@ == MERC_PROJECT_FILE@,
        r.text@ == company_text(key@, province_id),
        r.loc_entries@.len() == 1,
        r.loc_entries@[0].key@ == key@,
        r.loc_entries@[0].value@ == prettify_spec(key@),
{
    let id_text = usize_to_string(province_id as usize);
    let id = id_text.as_str();
    let mut text = String::from_str(key);
    text.append(" = {\n\tregiments_per_development = 0.04\n\thome_province = ");
    text.append(id);
    text.append("\n\tcavalry_weight = 0.2\n\tcavalry_cap = 4\n\tcost_modifier = 1.0\n\tsprites = { westerngfx_sprite_pack }\n\ttrigger = {\n\t\tis_allowed_to_recruit_mercenaries = yes\n\t}\n\tmodifier = {\n\t\tland_morale = 0.05\n\t}\n}");
    let mut entries: Vec<LocEntry> = Vec::new();
    entries.push(LocEntry { key: key.to_string(), value: prettify(key) });
    Scaffold { key: key.to_string(), file: String::from_str(MERC_PROJECT_FILE), text, loc_entries: entries }
}

// ---------------------------------------------------------------------------
// Loading
// ---------------------------------------------------------------------------

/// Where a stable sort of texts places `x` after the sorted `t`: the first
/// index whose text `x` sorts strictly before (else the length).
pub open spec fn text_slot_from(t: Seq<Seq<char>>, x: Seq<char>, j: int) -> int
    decreases t.len() - j,
{
    if j < 0 || j >= t.len() {
        t.len() as int
    } else if lex_lt(x, t[j]) {
        j
    } else {
        text_slot_from(t, x, j + 1)
    }
}

/// The texts sorted (as `Vec<String>::sort` orders them).
pub open spec fn sort_texts(s: Seq<Seq<char>>) -> Seq<Seq<char>>
    decreases s.len(),
{
    if s.len() == 0 {
        s
    } else {
        let t = sort_texts(s.drop_last());
        t.insert(text_slot_from(t, s.last(), 0), s.last())
    }
}

/// The texts with each run of equal neighbours kept once (`Vec::dedup`).
pub open spec fn dedup_adjacent(s: Seq<Seq<char>>) -> Seq<Seq<char>>
    decreases s.len(),
{
    if s.len() == 0 {
        s
    } else {
        let r = dedup_adjacent(s.drop_last());
        if r.len() > 0 && r.last() == s.last() {
            r
        } else {
            r.push(s.last())
        }
    }
}

/// The project paths of the listed `.txt` files, in listing order.
pub open spec fn merc_paths(names: Seq<Seq<char>>) -> Seq<Seq<char>>
    decreases names.len(),
{
    if names.len() == 0 {
        Seq::empty()
    } else {
        let rest = merc_paths(names.drop_last());
        if is_txt_name(names.last()) {
            rest.push(MERC_DIR@ + "/"@ + names.last())
        } else {
            rest
        }
    }
}

/// The mercenary files to read, given the names listed in the folder: the
/// `.txt` ones, plus the project file when it is not among them, sorted
/// and without repeats.
pub open spec fn merc_files_spec(names: Seq<Seq<char>>) -> Seq<Seq<char>> {
    let p = merc_paths(names);
    let q = if p.contains(MERC_PROJECT_FILE@) {
        p
    } else {
        p.push(MERC_PROJECT_FILE@)
    };
    dedup_adjacent(sort_texts(q))
}

fn sort_strings(v: Vec<String>) -> (r: Vec<String>)
    ensures
        strings_of(r@) == sort_texts(strings_of(v@)),
{
    let ghost all = strings_of(v@);
    let mut rest = v;
    let mut out: Vec<String> = Vec::new();
    let ghost mut n: int = 0;
    assert(all.skip(0) =~= all);
    while rest.len() > 0
        invariant
            0 <= n <= all.len(),
            strings_of(rest@) == all.skip(n),
            strings_of(out@) == sort_texts(all.take(n)),
        decreases rest@.len(),
    {
        let ghost pre = rest@;
        assert(strings_of(pre).len() == pre.len());
        let o = rest.remove(0);
        assert(strings_of(pre)[0] == pre[0]@);
        assert(all.skip(n)[0] == all[n]);
        assert(strings_of(rest@) =~= strings_of(pre).skip(1));
        assert(strings_of(pre).skip(1) =~= all.skip(n + 1));
        assert(all.take(n + 1).drop_last() =~= all.take(n));
        assert(all.take(n + 1).last() == all[n]);
        let ghost t = strings_of(out@);
        let mut j: usize = 0;
        loop
            invariant
                j <= out@.len(),
                t == strings_of(out@),
                o@ == all[n],
                text_slot_from(t, all[n], j as int) == text_slot_from(t, all[n], 0),
            ensures
                j <= out@.len(),
                text_slot_from(t, all[n], j as int) == j,
            decreases out@.len() - j,
        {
            if j >= out.len() {
                break;
            }
            assert(t[j as int] == out@[j as int]@);
            if lex_less(o.as_str(), out[j].as_str()) {
                break;
            }
            j = j + 1;
        }
        out.insert(j, o);
        assert(strings_of(out@) =~= t.insert(j as int, all[n]));
        proof {
            n = n + 1;
        }
    }
    assert(all.take(n) =~= all);
    out
}

fn dedup_strings(v: Vec<String>) -> (r: Vec<String>)
    ensures
        strings_of(r@) == dedup_adjacent(strings_of(v@)),
{
    let ghost all = strings_of(v@);
    let mut rest = v;
    let mut out: Vec<String> = Vec::new();
    let ghost mut n: int = 0;
    assert(all.skip(0) =~= all);
    while rest.len() > 0
        invariant
            0 <= n <= all.len(),
            strings_of(rest@) == all.skip(n),
            strings_of(out@) == dedup_adjacent(all.take(n)),
        decreases rest@.len(),
    {
        let ghost pre = rest@;
        assert(strings_of(pre).len() == pre.len());
        let o = rest.remove(0);
        assert(strings_of(pre)[0] == pre[0]@);
        assert(all.skip(n)[0] == all[n]);
        assert(strings_of(rest@) =~= strings_of(pre).skip(1));
        assert(strings_of(pre).skip(1) =~= all.skip(n + 1));
        assert(all.take(n + 1).drop_last() =~= all.take(n));
        assert(all.take(n + 1).last() == all[n]);
        let ghost before = strings_of(out@);
        let l = out.len();
        let repeat = l > 0 && str_eq(out[l - 1].as_str(), o.as_str());
        if !repeat {
            out.push(o);
            assert(strings_of(out@) =~= before.push(all[n]));
        }
        proof {
            n = n + 1;
        }
    }
    assert(all.take(n) =~= all);
    out
}

/// The mercenary files to read (see [`merc_files_spec`]), given the names
/// listed in `common/mercenary_companies`.
pub fn merc_files(names: &Vec<String>) -> (r: Vec<String>)
    ensures
        strings_of(r@) == merc_files_spec(strings_of(names@)),
{
    let ghost nv = strings_of(names@);
    let mut paths: Vec<String> = Vec::new();
    let mut i: usize = 0;
    while i < names.len()
        invariant
            i <= names@.len(),
            nv == strings_of(names@),
            strings_of(paths@) == merc_paths(nv.take(i as int)),
        decreases names@.len() - i,
    {
        assert(nv.take(i + 1).drop_last() =~= nv.take(i as int));
        assert(nv.take(i + 1).last() == names@[i as int]@);
        if is_txt(names[i].as_str()) {
            let mut p = String::from_str(MERC_DIR);
            p.append("/");
            p.append(names[i].as_str());
            let ghost before = strings_of(paths@);
            paths.push(p);
            assert(strings_of(paths@) =~= before.push(MERC_DIR@ + "/"@ + names@[i as int]@));
        }
        i = i + 1;
    }
    assert(nv.take(names@.len() as int) =~= nv);
    if !contains_text(&paths, MERC_PROJECT_FILE) {
        let ghost before = strings_of(paths@);
        paths.push(String::from_str(MERC_PROJECT_FILE));
        assert(strings_of(paths@) =~= before.push(MERC_PROJECT_FILE@));
    }
    let sorted = sort_strings(paths);
    dedup_strings(sorted)
}

pub open spec fn companies_view(v: Seq<MercenaryCompany>) -> Seq<CompanyView> {
    v.map_values(|c: MercenaryCompany| company_view(c))
}

/// The companies of a file: each top-level keyed block read as
/// [`parse_company`] reads it.
pub open spec fn companies_spec(
    src: Seq<u8>,
    blocks: Seq<(Seq<char>, Block)>,
    loc: Seq<(Seq<char>, Seq<char>)>,
    file: Seq<char>,
    origin: Seq<char>,
) -> Seq<CompanyView> {
    Seq::new(blocks.len(), |i: int| company_spec(src, blocks[i].0, blocks[i].1, loc, file, origin))
}

/// The companies of a parsed file (bytes `file_bytes`, at project path
/// `rel`, from `origin`): every top-level `key = { … }` block read as a
/// company.
pub fn companies_of_block(file_bytes: &[u8], block: &Block, rel: &str, origin: &str, loc: &[(String, String)]) -> (r: Vec<MercenaryCompany>)
    ensures
        companies_view(r@) == companies_spec(file_bytes@, keyed_blocks(block.items@), loc_view(loc@), rel@, origin@),
{
    let kids = block.key_blocks();
    let ghost kb = keyed_blocks(block.items@);
    let mut out: Vec<MercenaryCompany> = Vec::new();
    let mut i: usize = 0;
    while i < kids.len()
        invariant
            i <= kids@.len(),
            kids@.len() == kb.len(),
            kb == keyed_blocks(block.items@),
            forall|k: int| 0 <= k < kids@.len() ==> (#[trigger] kids@[k]).0@ == kb[k].0 && *kids@[k].1 == kb[k].1,
            out@.len() == i,
            forall|k: int| 0 <= k < i ==> #[trigger] company_view(out@[k]) == company_spec(file_bytes@, kb[k].0, kb[k].1, loc_view(loc@), rel@, origin@),
        decreases kids@.len() - i,
    {
        let c = parse_company(file_bytes, kids[i].0, kids[i].1, loc, rel, origin);
        out.push(c);
        i = i + 1;
    }
    assert(companies_view(out@) =~= companies_spec(file_bytes@, kb, loc_view(loc@), rel@, origin@));
    out
}

/// The companies of a file with bytes `file_bytes` at project path `rel`,
/// from `origin`: the file is decoded (lossily) and parsed, and every
/// top-level `key = { … }` block is read as a company.
pub fn companies_of_file(file_bytes: &[u8], rel: &str, origin: &str, loc: &[(String, String)]) -> (r: Vec<MercenaryCompany>)
    ensures
        exists|b: Block| #![auto] b.vview() == parse_spec(lossy_utf8(file_bytes@))
            && companies_view(r@) == companies_spec(file_bytes@, keyed_blocks(b.items@), loc_view(loc@), rel@, origin@),
{
    let text = lossy_string(file_bytes);
    let block = parse(text.as_str());
    let r = companies_of_block(file_bytes, &block, rel, origin, loc);
    assert(block.vview() == parse_spec(lossy_utf8(file_bytes@)));
    r
}

/// One mercenary file as read: its project path, its bytes (with any
/// queued edits already applied) and the layer it came from.
pub struct MercFile {
    pub rel: String,
    pub bytes: Vec<u8>,
    pub origin: String,
}

pub open spec fn merc_files_view(v: Seq<MercFile>) -> Seq<(Seq<char>, Seq<u8>, Seq<char>)> {
    v.map_values(|f: MercFile| (f.rel@, f.bytes@, f.origin@))
}

/// `bs` holds, for every non-empty file, the block its text parses to.
pub open spec fn merc_parsed(files: Seq<(Seq<char>, Seq<u8>, Seq<char>)>, bs: Seq<Block>) -> bool {
    &&& bs.len() == files.len()
    &&& forall|i: int| 0 <= i < files.len() && (#[trigger] files[i]).1.len() > 0 ==> bs[i].vview() == parse_spec(lossy_utf8(files[i].1))
}

/// The companies of the files in order, empty files skipped.
pub open spec fn merc_loaded(files: Seq<(Seq<char>, Seq<u8>, Seq<char>)>, bs: Seq<Block>, loc: Seq<(Seq<char>, Seq<char>)>) -> Seq<CompanyView>
    decreases files.len(),
{
    if files.len() == 0 || bs.len() == 0 {
        Seq::empty()
    } else {
        let rest = merc_loaded(files.drop_last(), bs.drop_last(), loc);
        let f = files.last();
        if f.1.len() == 0 {
            rest
        } else {
            rest + companies_spec(f.1, keyed_blocks(bs.last().items@), loc, f.0, f.2)
        }
    }
}

/// Every mercenary company of the files (as [`merc_files`] lists them,
/// read with the queued edits applied; empty files are skipped), in order.
pub fn load_with_edits(files: &Vec<MercFile>, loc: &[(String, String)]) -> (r: Vec<MercenaryCompany>)
    ensures
        exists|bs: Seq<Block>| merc_parsed(merc_files_view(files@), bs)
            && companies_view(r@) == merc_loaded(merc_files_view(files@), bs, loc_view(loc@)),
{
    let ghost fv = merc_files_view(files@);
    let ghost lv = loc_view(loc@);
    let ghost mut bs: Seq<Block> = Seq::empty();
    let mut out: Vec<MercenaryCompany> = Vec::new();
    let mut i: usize = 0;
    while i < files.len()
        invariant
            i <= files@.len(),
            fv == merc_files_view(files@),
            fv.len() == files@.len(),
            lv == loc_view(loc@),
            merc_parsed(fv.take(i as int), bs),
            companies_view(out@) == merc_loaded(fv.take(i as int), bs, lv),
        decreases files@.len() - i,
    {
        let ghost before = out@;
        let ghost bs0 = bs;
        let f = &files[i];
        assert(fv[i as int] == (files@[i as int].rel@, files@[i as int].bytes@, files@[i as int].origin@));
        assert(fv.take(i + 1).drop_last() =~= fv.take(i as int));
        assert(fv.take(i + 1).last() == fv[i as int]);
        if f.bytes.len() > 0 {
            let text = lossy_string(f.bytes.as_slice());
            let block = parse(text.as_str());
            let mut cs = companies_of_block(f.bytes.as_slice(), &block, f.rel.as_str(), f.origin.as_str(), loc);
            let ghost cv = cs@;
            out.append(&mut cs);
            proof {
                bs = bs0.push(block);
                assert(bs.drop_last() =~= bs0);
                assert(out@ =~= before + cv);
                assert(companies_view(out@) =~= companies_view(before) + companies_view(cv));
            }
        } else {
            proof {
                bs = bs0.push(vstd::pervasive::arbitrary());
                assert(bs.drop_last() =~= bs0);
            }
        }
        proof {
            assert forall|j: int| 0 <= j < fv.take(i + 1).len() && (#[trigger] fv.take(i + 1)[j]).1.len() > 0
                implies bs[j].vview() == parse_spec(lossy_utf8(fv.take(i + 1)[j].1)) by {
                if j < i {
                    assert(fv.take(i + 1)[j] == fv.take(i as int)[j]);
                }
            }
        }
        i = i + 1;
    }
    assert(fv.take(files@.len() as int) =~= fv);
    out
}

/// The companies anchored at province `id`, in order.
pub open spec fn at_home(s: Seq<CompanyView>, id: u32) -> Seq<CompanyView>
    decreases s.len(),
{
    if s.len() == 0 {
        s
    } else {
        let r = at_home(s.drop_last(), id);
        if s.last().home_province == id {
            r.push(s.last())
        } else {
            r
        }
    }
}

/// The mercenary panel of province `id`: the loaded companies anchored
/// there (in order) and the project file new companies go to.
pub fn province_mercenaries(companies: Vec<MercenaryCompany>, id: u32) -> (r: ProvinceMercenaries)
    ensures
        companies_view(r.companies@) == at_home(companies_view(companies@), id),
        r.project_file@ == MERC_PROJECT_FILE@,
{
    let ghost all = companies_view(companies@);
    let mut rest = companies;
    let mut out: Vec<MercenaryCompany> = Vec::new();
    let ghost mut n: int = 0;
    assert(all.skip(0) =~= all);
    while rest.len() > 0
        invariant
            0 <= n <= all.len(),
            companies_view(rest@) == all.skip(n),
            companies_view(out@) == at_home(all.take(n), id),
        decreases rest@.len(),
    {
        let ghost pre = rest@;
        assert(companies_view(pre).len() == pre.len());
        let c = rest.remove(0);
        assert(companies_view(pre)[0] == company_view(pre[0]));
        assert(all.skip(n)[0] == all[n]);
        assert(companies_view(rest@) =~= companies_view(pre).skip(1));
        assert(companies_view(pre).skip(1) =~= all.skip(n + 1));
        assert(all.take(n + 1).drop_last() =~= all.take(n));
        assert(all.take(n + 1).last() == all[n]);
        let ghost before = companies_view(out@);
        if c.home_province == id {
            out.push(c);
            assert(companies_view(out@) =~= before.push(all[n]));
        }
        proof {
            n = n + 1;
        }
    }
    assert(all.take(n) =~= all);
    ProvinceMercenaries { companies: out, project_file: String::from_str(MERC_PROJECT_FILE) }
}

proof fn lemma_text_slot(t: Seq<Seq<char>>, x: Seq<char>, j: int)
    requires
        0 <= j <= t.len(),
    ensures
        j <= text_slot_from(t, x, j) <= t.len(),
        forall|k: int| j <= k < text_slot_from(t, x, j) ==> !lex_lt(x, #[trigger] t[k]),
        text_slot_from(t, x, j) < t.len() ==> lex_lt(x, t[text_slot_from(t, x, j)]),
    decreases t.len() - j,
{
    if j < t.len() && !lex_lt(x, t[j]) {
        lemma_text_slot(t, x, j + 1);
    }
}

pub open spec fn text_key(s: Seq<char>) -> Seq<char> {
    s
}

proof fn lemma_sort_texts(s: Seq<Seq<char>>)
    ensures
        sorted_by_key(sort_texts(s), |x: Seq<char>| text_key(x)),
        sort_texts(s).len() == s.len(),
    decreases s.len(),
{
    if s.len() > 0 {
        lemma_sort_texts(s.drop_last());
        let t = sort_texts(s.drop_last());
        lemma_text_slot(t, s.last(), 0);
        lemma_insert_sorted(t, |x: Seq<char>| text_key(x), s.last(), text_slot_from(t, s.last(), 0));
    }
}

proof fn lemma_dedup_strict(s: Seq<Seq<char>>)
    requires
        sorted_by_key(s, |x: Seq<char>| text_key(x)),
    ensures
        forall|i: int, j: int| 0 <= i < j < dedup_adjacent(s).len() ==> lex_lt(#[trigger] dedup_adjacent(s)[i], #[trigger] dedup_adjacent(s)[j]),
        dedup_adjacent(s).len() <= s.len(),
        s.len() > 0 ==> dedup_adjacent(s).len() > 0 && dedup_adjacent(s).last() == s.last(),
    decreases s.len(),
{
    if s.len() > 0 {
        let p = s.drop_last();
        assert(sorted_by_key(p, |x: Seq<char>| text_key(x))) by {
            assert forall|i: int, j: int| 0 <= i < j < p.len() implies !lex_lt(text_key(#[trigger] p[j]), text_key(#[trigger] p[i])) by {
                assert(p[i] == s[i] && p[j] == s[j]);
            }
        }
        lemma_dedup_strict(p);
        let r = dedup_adjacent(p);
        if !(r.len() > 0 && r.last() == s.last()) {
            let q = r.push(s.last());
            assert forall|i: int, j: int| 0 <= i < j < q.len() implies lex_lt(#[trigger] q[i], #[trigger] q[j]) by {
                if j == q.len() - 1 {
                    // r.last() == p.last() sorts no later than s.last(), and they differ.
                    assert(r.len() > 0);
                    assert(r.last() == p.last());
                    assert(p.last() == s[s.len() - 2]);
                    assert(!lex_lt(text_key(s[s.len() - 1]), text_key(s[s.len() - 2])));
                    lemma_lex_total(r.last(), s.last());
                    if i < r.len() - 1 {
                        assert(lex_lt(r[i], r[r.len() - 1]));
                        lemma_lex_transitive(r[i], r.last(), s.last());
                    }
                } else {
                    assert(q[i] == r[i] && q[j] == r[j]);
                }
            }
        }
    }
}

/// The mercenary files come out sorted with no file listed twice: each
/// sorts strictly before the next.
pub proof fn lemma_merc_files_strictly_sorted(names: Seq<Seq<char>>)
    ensures
        forall|i: int, j: int| 0 <= i < j < merc_files_spec(names).len()
            ==> lex_lt(#[trigger] merc_files_spec(names)[i], #[trigger] merc_files_spec(names)[j]),
        merc_files_spec(names).contains(MERC_PROJECT_FILE@),
{
    let p = merc_paths(names);
    let q = if p.contains(MERC_PROJECT_FILE@) { p } else { p.push(MERC_PROJECT_FILE@) };
    assert(q.contains(MERC_PROJECT_FILE@)) by {
        if !p.contains(MERC_PROJECT_FILE@) {
            assert(q[q.len() - 1] == MERC_PROJECT_FILE@);
        }
    }
    lemma_sort_texts(q);
    lemma_dedup_strict(sort_texts(q));
    lemma_sort_texts_perm(q);
    lemma_dedup_keeps(sort_texts(q));
}

proof fn lemma_sort_texts_perm(s: Seq<Seq<char>>)
    ensures
        forall|x: Seq<char>| s.contains(x) ==> sort_texts(s).contains(x),
    decreases s.len(),
{
    if s.len() > 0 {
        lemma_sort_texts_perm(s.drop_last());
        let t = sort_texts(s.drop_last());
        lemma_text_slot(t, s.last(), 0);
        let p = text_slot_from(t, s.last(), 0);
        let r = t.insert(p, s.last());
        assert forall|x: Seq<char>| s.contains(x) implies r.contains(x) by {
            let k = choose|k: int| 0 <= k < s.len() && s[k] == x;
            if k == s.len() - 1 {
                assert(r[p] == x);
            } else {
                assert(s.drop_last()[k] == x);
                assert(s.drop_last().contains(x));
                assert(t.contains(x));
                let m = choose|m: int| 0 <= m < t.len() && t[m] == x;
                if m < p {
                    assert(r[m] == x);
                } else {
                    assert(r[m + 1] == x);
                }
            }
        }
    }
}

proof fn lemma_dedup_keeps(s: Seq<Seq<char>>)
    ensures
        forall|x: Seq<char>| s.contains(x) ==> dedup_adjacent(s).contains(x),
    decreases s.len(),
{
    if s.len() > 0 {
        lemma_dedup_keeps(s.drop_last());
        let r = dedup_adjacent(s.drop_last());
        assert(dedup_adjacent(s) == if r.len() > 0 && r.last() == s.last() { r } else { r.push(s.last()) });
        assert forall|x: Seq<char>| s.contains(x) implies dedup_adjacent(s).contains(x) by {
            let k = choose|k: int| 0 <= k < s.len() && s[k] == x;
            if k == s.len() - 1 {
                if r.len() > 0 && r.last() == s.last() {
                    assert(dedup_adjacent(s)[r.len() - 1] == x);
                } else {
                    assert(dedup_adjacent(s)[r.len() as int] == x);
                }
            } else {
                assert(s.drop_last()[k] == x);
                assert(s.drop_last().contains(x));
                assert(r.contains(x));
                let m = choose|m: int| 0 <= m < r.len() && r[m] == x;
                assert(dedup_adjacent(s)[m] == x);
            }
        }
    }
}

} // verus!
