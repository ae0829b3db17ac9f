//! Generic registry loaders over `common/` (and `map/`) locations.
//!
//! A registry is a game location parsed into keyed entries with localized
//! names, driven by a per-registry [`RegistryConfig`] (see [`registries`]).
//! Every entry carries its key, display name, the file it came from, and the
//! raw parsed block (order- and duplicate-preserving).
//!
//! Merge semantics mirror the game: files load in one sweep (the caller
//! lists them, mod files shadowing same-named base files); a repeated entry
//! key updates the earlier entry in place (last definition wins, first-seen
//! position kept).
//!
//! Modifier keys are not a file registry: [`known_modifiers`] is a curated
//! list of common country/province modifier keys with their value kind.

use vstd::prelude::*;
use crate::fields::texts;
use crate::mechanics::{is_txt, is_txt_name};
use crate::paradox::{
    items_vview, key_view, lemma_bare_view, lemma_block_view, lemma_keyed_view, parse, parse_spec, vbare_texts,
    vblock_of, vkeyed_blocks, Block, VValue, Value,
};
use crate::text::{loc_get, loc_lookup, loc_view, lossy_string, lossy_utf8, prettify, prettify_spec, str_eq};

verus! {

// ---------------------------------------------------------------------------
// Raw values
// ---------------------------------------------------------------------------

/// An order- and duplicate-preserving mirror of a parsed block.
#[derive(Debug)]
pub enum RawValue {
    Scalar(String),
    Block(Vec<RawItem>),
}

/// One `(optional key, value)` pair of a parsed block (a `None` key is a
/// bare list element).
#[derive(Debug)]
pub struct RawItem {
    pub key: Option<String>,
    pub value: RawValue,
}

impl RawValue {
    /// The parsed value this mirrors.
    pub open spec fn rview(&self) -> VValue
        decreases self,
    {
        match self {
            RawValue::Scalar(s) => VValue::Scalar(s@),
            RawValue::Block(items) => VValue::Block(raw_items_view(items@)),
        }
    }
}

pub open spec fn raw_items_view(items: Seq<RawItem>) -> Seq<(Option<Seq<char>>, VValue)>
    decreases items,
{
    if items.len() == 0 {
        Seq::empty()
    } else {
        raw_items_view(items.drop_last()).push((key_view(items.last().key), items.last().value.rview()))
    }
}

fn to_raw_items(items: &Vec<(Option<String>, Value)>) -> (r: Vec<RawItem>)
    ensures
        raw_items_view(r@) == items_vview(items@),
    decreases items@,
{
    let mut out: Vec<RawItem> = Vec::new();
    let mut i: usize = 0;
    while i < items.len()
        invariant
            i <= items@.len(),
            raw_items_view(out@) == items_vview(items@.subrange(0, i as int)),
        decreases items@.len() - i,
    {
        let ghost before = out@;
        let value = match &items[i].1 {
            Value::Scalar(s) => RawValue::Scalar(s.clone()),
            Value::Block(b) => {
                assert(decreases_to!(items@ => items@[i as int]));
                let inner = to_raw_items(&b.items);
                RawValue::Block(inner)
            },
        };
        let item = RawItem { key: items[i].0.clone(), value };
        out.push(item);
        proof {
            assert(items@.subrange(0, i + 1).drop_last() =~= items@.subrange(0, i as int));
            assert(out@.drop_last() =~= before);
            assert(item.value.rview() == items@[i as int].1.vview());
        }
        i = i + 1;
    }
    assert(items@.subrange(0, items@.len() as int) =~= items@);
    out
}

/// The raw mirror of a parsed block.
pub fn to_raw(block: &Block) -> (r: RawValue)
    ensures
        r.rview() == VValue::Block(block.vview()),
{
    RawValue::Block(to_raw_items(&block.items))
}

// ---------------------------------------------------------------------------
// Config
// ---------------------------------------------------------------------------

/// Where a registry's data lives: a directory of `.txt` files, or one file.
pub enum Source {
    Folder(&'static str),
    File(&'static str),
}

/// How entries are shaped inside the source.
pub enum Shape {
    /// Each top-level `key = { ... }` is an entry.
    TopLevelBlocks,
    /// Entries are the `key = { ... }` blocks under one named parent block.
    NestedUnder(&'static str),
    /// Bare identifiers, one token each (no block).
    BareList,
}

/// How an entry key becomes its localisation key.
pub enum LocPattern {
    AsIs,
    Upper,
    Suffix(&'static str),
}

/// One registry.
pub struct RegistryConfig {
    pub name: &'static str,
    pub source: Source,
    pub shape: Shape,
    pub loc: LocPattern,
    /// Keys that appear as blocks but are not entries.
    pub exclude: Vec<&'static str>,
}

pub enum SourceV {
    Folder(Seq<char>),
    File(Seq<char>),
}

pub enum ShapeV {
    TopLevelBlocks,
    NestedUnder(Seq<char>),
    BareList,
}

pub enum LocV {
    AsIs,
    Upper,
    Suffix(Seq<char>),
}

/// The spec view of a registry config.
pub struct ConfigView {
    pub name: Seq<char>,
    pub source: SourceV,
    pub shape: ShapeV,
    pub loc: LocV,
    pub exclude: Seq<Seq<char>>,
}

pub open spec fn config_view(c: RegistryConfig) -> ConfigView {
    ConfigView {
        name: c.name@,
        source: match c.source {
            Source::Folder(d) => SourceV::Folder(d@),
            Source::File(f) => SourceV::File(f@),
        },
        shape: match c.shape {
            Shape::TopLevelBlocks => ShapeV::TopLevelBlocks,
            Shape::NestedUnder(p) => ShapeV::NestedUnder(p@),
            Shape::BareList => ShapeV::BareList,
        },
        loc: match c.loc {
            LocPattern::AsIs => LocV::AsIs,
            LocPattern::Upper => LocV::Upper,
            LocPattern::Suffix(s) => LocV::Suffix(s@),
        },
        exclude: texts(c.exclude@),
    }
}

pub open spec fn configs_view(v: Seq<RegistryConfig>) -> Seq<ConfigView> {
    v.map_values(|c: RegistryConfig| config_view(c))
}

/// The registries.
pub open spec fn registry_table() -> Seq<ConfigView> {
    seq![
        ConfigView { name: "governments"@, source: SourceV::Folder("common/governments"@), shape: ShapeV::TopLevelBlocks, loc: LocV::Upper, exclude: seq!["pre_dharma_mapping"@] },
        ConfigView { name: "government_reforms"@, source: SourceV::Folder("common/government_reforms"@), shape: ShapeV::TopLevelBlocks, loc: LocV::AsIs, exclude: Seq::empty() },
        ConfigView { name: "technology_groups"@, source: SourceV::File("common/technology.txt"@), shape: ShapeV::NestedUnder("groups"@), loc: LocV::AsIs, exclude: Seq::empty() },
        ConfigView { name: "graphical_cultures"@, source: SourceV::File("common/graphicalculturetype.txt"@), shape: ShapeV::BareList, loc: LocV::AsIs, exclude: Seq::empty() },
        ConfigView { name: "ruler_personalities"@, source: SourceV::Folder("common/ruler_personalities"@), shape: ShapeV::TopLevelBlocks, loc: LocV::AsIs, exclude: Seq::empty() },
        ConfigView { name: "advisor_types"@, source: SourceV::Folder("common/advisortypes"@), shape: ShapeV::TopLevelBlocks, loc: LocV::AsIs, exclude: Seq::empty() },
        ConfigView { name: "buildings"@, source: SourceV::Folder("common/buildings"@), shape: ShapeV::TopLevelBlocks, loc: LocV::AsIs, exclude: Seq::empty() },
        ConfigView { name: "trade_goods"@, source: SourceV::Folder("common/tradegoods"@), shape: ShapeV::TopLevelBlocks, loc: LocV::AsIs, exclude: Seq::empty() },
        ConfigView { name: "event_modifiers"@, source: SourceV::Folder("common/event_modifiers"@), shape: ShapeV::TopLevelBlocks, loc: LocV::AsIs, exclude: Seq::empty() },
        ConfigView { name: "province_triggered_modifiers"@, source: SourceV::Folder("common/province_triggered_modifiers"@), shape: ShapeV::TopLevelBlocks, loc: LocV::AsIs, exclude: Seq::empty() },
        ConfigView { name: "subject_types"@, source: SourceV::Folder("common/subject_types"@), shape: ShapeV::TopLevelBlocks, loc: LocV::Suffix("_title"@), exclude: seq!["default"@, "dummy"@] },
        ConfigView { name: "terrain_categories"@, source: SourceV::File("map/terrain.txt"@), shape: ShapeV::NestedUnder("categories"@), loc: LocV::AsIs, exclude: Seq::empty() },
        ConfigView { name: "cb_types"@, source: SourceV::Folder("common/cb_types"@), shape: ShapeV::TopLevelBlocks, loc: LocV::AsIs, exclude: Seq::empty() },
        ConfigView { name: "wargoal_types"@, source: SourceV::Folder("common/wargoal_types"@), shape: ShapeV::TopLevelBlocks, loc: LocV::AsIs, exclude: Seq::empty() },
        ConfigView { name: "peace_treaties"@, source: SourceV::Folder("common/peace_treaties"@), shape: ShapeV::TopLevelBlocks, loc: LocV::AsIs, exclude: Seq::empty() },
        ConfigView { name: "rebel_types"@, source: SourceV::Folder("common/rebel_types"@), shape: ShapeV::TopLevelBlocks, loc: LocV::Suffix("_title"@), exclude: Seq::empty() },
    ]
}

/// The registries, in table order.
pub fn registries() -> (r: Vec<RegistryConfig>)
    ensures
        configs_view(r@) == registry_table(),
{
    let mut v: Vec<RegistryConfig> = Vec::new();
    v.push(RegistryConfig { name: "governments", source: Source::Folder("common/governments"), shape: Shape::TopLevelBlocks, loc: LocPattern::Upper, exclude: vec!["pre_dharma_mapping"] });
    assert(texts(v@[0].exclude@) =~= seq!["pre_dharma_mapping"@]);
    v.push(RegistryConfig { name: "government_reforms", source: Source::Folder("common/government_reforms"), shape: Shape::TopLevelBlocks, loc: LocPattern::AsIs, exclude: vec![] });
    assert(texts(v@[1].exclude@) =~= Seq::empty());
    v.push(RegistryConfig { name: "technology_groups", source: Source::File("common/technology.txt"), shape: Shape::NestedUnder("groups"), loc: LocPattern::AsIs, exclude: vec![] });
    assert(texts(v@[2].exclude@) =~= Seq::empty());
    v.push(RegistryConfig { name: "graphical_cultures", source: Source::File("common/graphicalculturetype.txt"), shape: Shape::BareList, loc: LocPattern::AsIs, exclude: vec![] });
    assert(texts(v@[3].exclude@) =~= Seq::empty());
    v.push(RegistryConfig { name: "ruler_personalities", source: Source::Folder("common/ruler_personalities"), shape: Shape::TopLevelBlocks, loc: LocPattern::AsIs, exclude: vec![] });
    assert(texts(v@[4].exclude@) =~= Seq::empty());
    v.push(RegistryConfig { name: "advisor_types", source: Source::Folder("common/advisortypes"), shape: Shape::TopLevelBlocks, loc: LocPattern::AsIs, exclude: vec![] });
    assert(texts(v@[5].exclude@) =~= Seq::empty());
    v.push(RegistryConfig { name: "buildings", source: Source::Folder("common/buildings"), shape: Shape::TopLevelBlocks, loc: LocPattern::AsIs, exclude: vec![] });
    assert(texts(v@[6].exclude@) =~= Seq::empty());
    v.push(RegistryConfig { name: "trade_goods", source: Source::Folder("common/tradegoods"), shape: Shape::TopLevelBlocks, loc: LocPattern::AsIs, exclude: vec![] });
    assert(texts(v@[7].exclude@) =~= Seq::empty());
    v.push(RegistryConfig { name: "event_modifiers", source: Source::Folder("common/event_modifiers"), shape: Shape::TopLevelBlocks, loc: LocPattern::AsIs, exclude: vec![] });
    assert(texts(v@[8].exclude@) =~= Seq::empty());
    v.push(RegistryConfig { name: "province_triggered_modifiers", source: Source::Folder("common/province_triggered_modifiers"), shape: Shape::TopLevelBlocks, loc: LocPattern::AsIs, exclude: vec![] });
    assert(texts(v@[9].exclude@) =~= Seq::empty());
    v.push(RegistryConfig { name: "subject_types", source: Source::Folder("common/subject_types"), shape: Shape::TopLevelBlocks, loc: LocPattern::Suffix("_title"), exclude: vec!["default", "dummy"] });
    assert(texts(v@[10].exclude@) =~= seq!["default"@, "dummy"@]);
    v.push(RegistryConfig { name: "terrain_categories", source: Source::File("map/terrain.txt"), shape: Shape::NestedUnder("categories"), loc: LocPattern::AsIs, exclude: vec![] });
    assert(texts(v@[11].exclude@) =~= Seq::empty());
    v.push(RegistryConfig { name: "cb_types", source: Source::Folder("common/cb_types"), shape: Shape::TopLevelBlocks, loc: LocPattern::AsIs, exclude: vec![] });
    assert(texts(v@[12].exclude@) =~= Seq::empty());
    v.push(RegistryConfig { name: "wargoal_types", source: Source::Folder("common/wargoal_types"), shape: Shape::TopLevelBlocks, loc: LocPattern::AsIs, exclude: vec![] });
    assert(texts(v@[13].exclude@) =~= Seq::empty());
    v.push(RegistryConfig { name: "peace_treaties", source: Source::Folder("common/peace_treaties"), shape: Shape::TopLevelBlocks, loc: LocPattern::AsIs, exclude: vec![] });
    assert(texts(v@[14].exclude@) =~= Seq::empty());
    v.push(RegistryConfig { name: "rebel_types", source: Source::Folder("common/rebel_types"), shape: Shape::TopLevelBlocks, loc: LocPattern::Suffix("_title"), exclude: vec![] });
    assert(texts(v@[15].exclude@) =~= Seq::empty());

    assert(configs_view(v@) =~= registry_table());
    v
}

/// The index of the first registry named `name`, searching from `k`.
pub open spec fn registry_pos_from(name: Seq<char>, k: int) -> Option<int>
    decreases registry_table().len() - k,
{
    if k < 0 || k >= registry_table().len() {
        None
    } else if registry_table()[k].name == name {
        Some(k)
    } else {
        registry_pos_from(name, k + 1)
    }
}

proof fn lemma_registry_pos(name: Seq<char>, k: int)
    requires
        0 <= k,
    ensures
        registry_pos_from(name, k) matches Some(i) ==> k <= i < registry_table().len() && registry_table()[i].name == name,
    decreases registry_table().len() - k,
{
    if k < registry_table().len() && registry_table()[k].name != name {
        lemma_registry_pos(name, k + 1);
    }
}

// ---------------------------------------------------------------------------
// Accumulating entries
// ---------------------------------------------------------------------------

/// The index of the first accumulated entry keyed `key`.
pub open spec fn state_index(st: Seq<(Seq<char>, VValue, Seq<char>)>, key: Seq<char>) -> Option<int>
    decreases st.len(),
{
    if st.len() == 0 {
        None
    } else {
        match state_index(st.drop_last(), key) {
            Some(i) => Some(i),
            None => if st.last().0 == key { Some(st.len() - 1) } else { None },
        }
    }
}

/// One definition added: a known key has its content and file replaced in
/// place, a new key is appended.
pub open spec fn push_entry_spec(st: Seq<(Seq<char>, VValue, Seq<char>)>, key: Seq<char>, raw: VValue, src: Seq<char>) -> Seq<(Seq<char>, VValue, Seq<char>)> {
    match state_index(st, key) {
        Some(i) => st.update(i, (key, raw, src)),
        None => st.push((key, raw, src)),
    }
}

/// The definitions `pushes` of one file `src` added in order.
pub open spec fn accum_spec(st: Seq<(Seq<char>, VValue, Seq<char>)>, pushes: Seq<(Seq<char>, VValue)>, src: Seq<char>) -> Seq<(Seq<char>, VValue, Seq<char>)>
    decreases pushes.len(),
{
    if pushes.len() == 0 {
        st
    } else {
        push_entry_spec(accum_spec(st, pushes.drop_last(), src), pushes.last().0, pushes.last().1, src)
    }
}

pub open spec fn state_view(v: Seq<(String, RawValue, String)>) -> Seq<(Seq<char>, VValue, Seq<char>)> {
    v.map_values(|e: (String, RawValue, String)| (e.0@, e.1.rview(), e.2@))
}

proof fn lemma_state_index(st: Seq<(Seq<char>, VValue, Seq<char>)>, key: Seq<char>)
    ensures
        state_index(st, key) matches Some(i) ==> 0 <= i < st.len() && st[i].0 == key,
        state_index(st, key) is None ==> forall|j: int| 0 <= j < st.len() ==> st[j].0 != key,
    decreases st.len(),
{
    if st.len() > 0 {
        lemma_state_index(st.drop_last(), key);
        if state_index(st.drop_last(), key) is None {
            assert forall|j: int| 0 <= j < st.len() - 1 implies st[j].0 != key by {
                assert(st.drop_last()[j] == st[j]);
            }
        }
    }
}

proof fn lemma_state_index_prefix(st: Seq<(Seq<char>, VValue, Seq<char>)>, key: Seq<char>, n: int)
    requires
        0 < n <= st.len(),
        state_index(st.subrange(0, n), key) is Some,
    ensures
        state_index(st, key) == state_index(st.subrange(0, n), key),
    decreases st.len() - n,
{
    if n < st.len() {
        assert(st.subrange(0, n + 1).drop_last() =~= st.subrange(0, n));
        lemma_state_index_prefix(st, key, n + 1);
    } else {
        assert(st.subrange(0, n) =~= st);
    }
}

fn push_entry(st: &mut Vec<(String, RawValue, String)>, key: &str, raw: RawValue, src: &str)
    ensures
        state_view(final(st)@) == push_entry_spec(state_view(old(st)@), key@, raw.rview(), src@),
{
    let ghost sv = state_view(st@);
    let mut i: usize = 0;
    while i < st.len()
        invariant
            i <= st@.len(),
            sv == state_view(st@),
            state_index(sv.subrange(0, i as int), key@) is None,
            st@ == old(st)@,
        decreases st@.len() - i,
    {
        assert(sv.subrange(0, i + 1).drop_last() =~= sv.subrange(0, i as int));
        assert(sv.subrange(0, i + 1).last() == sv[i as int]);
        if str_eq(st[i].0.as_str(), key) {
            proof {
                lemma_state_index_prefix(sv, key@, i + 1);
                assert(state_index(sv, key@) == Some(i as int));
            }
            st.set(i, (key.to_string(), raw, src.to_string()));
            assert(state_view(st@) =~= sv.update(i as int, (key@, raw.rview(), src@)));
            return;
        }
        i = i + 1;
    }
    assert(sv.subrange(0, st@.len() as int) =~= sv);
    let ghost k = key@;
    st.push((key.to_string(), raw, src.to_string()));
    assert(state_view(st@) =~= sv.push((k, raw.rview(), src@)));
}

/// The entries a config takes from `kb` (keyed blocks) not excluded.
pub open spec fn kept_blocks(kb: Seq<(Seq<char>, Seq<(Option<Seq<char>>, VValue)>)>, ex: Seq<Seq<char>>) -> Seq<(Seq<char>, VValue)>
    decreases kb.len(),
{
    if kb.len() == 0 {
        Seq::empty()
    } else {
        let rest = kept_blocks(kb.drop_last(), ex);
        if ex.contains(kb.last().0) { rest } else { rest.push((kb.last().0, VValue::Block(kb.last().1))) }
    }
}

/// The bare entries a config takes from `ids` not excluded (each with an
/// empty block).
pub open spec fn kept_ids(ids: Seq<Seq<char>>, ex: Seq<Seq<char>>) -> Seq<(Seq<char>, VValue)>
    decreases ids.len(),
{
    if ids.len() == 0 {
        Seq::empty()
    } else {
        let rest = kept_ids(ids.drop_last(), ex);
        if ex.contains(ids.last()) { rest } else { rest.push((ids.last(), VValue::Block(Seq::empty()))) }
    }
}

/// The definitions a config reads from one parsed file.
pub open spec fn file_pushes(c: ConfigView, items: Seq<(Option<Seq<char>>, VValue)>) -> Seq<(Seq<char>, VValue)> {
    match c.shape {
        ShapeV::TopLevelBlocks => kept_blocks(vkeyed_blocks(items), c.exclude),
        ShapeV::NestedUnder(p) => match vblock_of(items, p) {
            Some(pb) => kept_blocks(vkeyed_blocks(pb), c.exclude),
            None => Seq::empty(),
        },
        ShapeV::BareList => kept_ids(vbare_texts(items), c.exclude),
    }
}

fn excluded(ex: &Vec<&'static str>, key: &str) -> (r: bool)
    ensures
        r == texts(ex@).contains(key@),
{
    let mut i: usize = 0;
    while i < ex.len()
        invariant
            i <= ex@.len(),
            forall|m: int| 0 <= m < i ==> ex@[m]@ != key@,
        decreases ex@.len() - i,
    {
        if str_eq(ex[i], key) {
            assert(texts(ex@)[i as int] == key@);
            return true;
        }
        i = i + 1;
    }
    proof {
        if texts(ex@).contains(key@) {
            let m = choose|m: int| 0 <= m < texts(ex@).len() && texts(ex@)[m] == key@;
            assert(ex@[m]@ == key@);
        }
    }
    false
}

fn push_blocks(st: &mut Vec<(String, RawValue, String)>, b: &Block, ex: &Vec<&'static str>, src: &str)
    ensures
        state_view(final(st)@) == accum_spec(state_view(old(st)@), kept_blocks(vkeyed_blocks(b.vview()), texts(ex@)), src@),
{
    proof {
        lemma_keyed_view(b.items@);
    }
    let ghost start = state_view(st@);
    let ghost kb = vkeyed_blocks(b.vview());
    let kids = b.key_blocks();
    let mut i: usize = 0;
    while i < kids.len()
        invariant
            i <= kids@.len(),
            kids@.len() == kb.len(),
            kb == vkeyed_blocks(b.vview()),
            forall|k: int| 0 <= k < kids@.len() ==> (#[trigger] kids@[k]).0@ == kb[k].0 && kids@[k].1.vview() == kb[k].1,
            state_view(st@) == accum_spec(start, kept_blocks(kb.subrange(0, i as int), texts(ex@)), src@),
        decreases kids@.len() - i,
    {
        let ghost sub = kb.subrange(0, i + 1);
        assert(sub.drop_last() =~= kb.subrange(0, i as int));
        assert(sub.last() == kb[i as int]);
        let (key, inner) = kids[i];
        if !excluded(ex, key) {
            let raw = to_raw(inner);
            push_entry(st, key, raw, src);
            proof {
                let pk = kept_blocks(sub, texts(ex@));
                assert(pk.drop_last() =~= kept_blocks(kb.subrange(0, i as int), texts(ex@)));
            }
        }
        i = i + 1;
    }
    assert(kb.subrange(0, kids@.len() as int) =~= kb);
}

fn push_ids(st: &mut Vec<(String, RawValue, String)>, b: &Block, ex: &Vec<&'static str>, src: &str)
    ensures
        state_view(final(st)@) == accum_spec(state_view(old(st)@), kept_ids(vbare_texts(b.vview()), texts(ex@)), src@),
{
    proof {
        lemma_bare_view(b.items@);
    }
    let ghost start = state_view(st@);
    let ghost ids = vbare_texts(b.vview());
    let bare = b.bare_scalars();
    let mut i: usize = 0;
    while i < bare.len()
        invariant
            i <= bare@.len(),
            bare@.len() == ids.len(),
            ids == vbare_texts(b.vview()),
            forall|k: int| 0 <= k < bare@.len() ==> (#[trigger] bare@[k])@ == ids[k],
            state_view(st@) == accum_spec(start, kept_ids(ids.subrange(0, i as int), texts(ex@)), src@),
        decreases bare@.len() - i,
    {
        let ghost sub = ids.subrange(0, i + 1);
        assert(sub.drop_last() =~= ids.subrange(0, i as int));
        assert(sub.last() == ids[i as int]);
        let id = bare[i];
        if !excluded(ex, id) {
            let raw = RawValue::Block(Vec::new());
            assert(raw.rview() == VValue::Block(Seq::empty())) by {
                assert(raw_items_view(Seq::<RawItem>::empty()) =~= Seq::empty());
            }
            push_entry(st, id, raw, src);
            proof {
                let pk = kept_ids(sub, texts(ex@));
                assert(pk.drop_last() =~= kept_ids(ids.subrange(0, i as int), texts(ex@)));
            }
        }
        i = i + 1;
    }
    assert(ids.subrange(0, bare@.len() as int) =~= ids);
}

/// Adds the definitions a config reads from one parsed file.
fn collect_from_block(c: &RegistryConfig, block: &Block, src: &str, st: &mut Vec<(String, RawValue, String)>)
    ensures
        state_view(final(st)@) == accum_spec(state_view(old(st)@), file_pushes(config_view(*c), block.vview()), src@),
{
    match &c.shape {
        Shape::TopLevelBlocks => push_blocks(st, block, &c.exclude, src),
        Shape::NestedUnder(parent) => {
            proof {
                lemma_block_view(block.items@, parent@);
            }
            match block.get_block(parent) {
                Some(pb) => push_blocks(st, pb, &c.exclude, src),
                None => {},
            }
        },
        Shape::BareList => push_ids(st, block, &c.exclude, src),
    }
}

// ---------------------------------------------------------------------------
// Loading
// ---------------------------------------------------------------------------

/// One file of a registry's source as the caller read it: its file name
/// (for a folder source) and bytes.
#[derive(Debug, Clone)]
pub struct RegistryFile {
    pub name: String,
    pub bytes: Vec<u8>,
}

/// The game-relative path a file's entries are attributed to.
pub open spec fn rel_of(s: SourceV, name: Seq<char>) -> Seq<char> {
    match s {
        SourceV::Folder(d) => d + "/"@ + name,
        SourceV::File(f) => f,
    }
}

/// The accumulated entries of a registry's files, in order: a folder reads
/// only its `.txt` files.
pub open spec fn files_state(c: ConfigView, files: Seq<(Seq<char>, Seq<u8>)>) -> Seq<(Seq<char>, VValue, Seq<char>)>
    decreases files.len(),
{
    if files.len() == 0 {
        Seq::empty()
    } else {
        let st = files_state(c, files.drop_last());
        let f = files.last();
        if (c.source is Folder) && !is_txt_name(f.0) {
            st
        } else {
            accum_spec(st, file_pushes(c, parse_spec(lossy_utf8(f.1))), rel_of(c.source, f.0))
        }
    }
}

/// One registry entry: a keyed game object with a localized name.
#[derive(Debug)]
pub struct RegistryEntry {
    pub key: String,
    /// Localized display name (loc key resolved, else prettified key).
    pub name: String,
    /// Game-relative file the entry was (last) defined in.
    pub source_file: String,
    pub raw: RawValue,
}

pub open spec fn entry_view(e: RegistryEntry) -> (Seq<char>, Seq<char>, Seq<char>, VValue) {
    (e.key@, e.name@, e.source_file@, e.raw.rview())
}

pub open spec fn entries_view(v: Seq<RegistryEntry>) -> Seq<(Seq<char>, Seq<char>, Seq<char>, VValue)> {
    v.map_values(|e: RegistryEntry| entry_view(e))
}

/// What `str::to_uppercase` makes of a text (Unicode upper-casing).
pub uninterp spec fn unicode_upper(s: Seq<char>) -> Seq<char>;

/// `str::to_uppercase`: the result depends on the text alone.
#[verifier::external_body]
fn to_uppercase(s: &str) -> (r: String)
    ensures
        r@ == unicode_upper(s@),
{
    s.to_uppercase()
}

/// The localisation key of an entry key.
pub open spec fn loc_key_spec(p: LocV, key: Seq<char>) -> Seq<char> {
    match p {
        LocV::AsIs => key,
        LocV::Upper => unicode_upper(key),
        LocV::Suffix(s) => key + s,
    }
}

/// An entry's display name: its localisation, else the prettified key.
pub open spec fn entry_name(loc: Seq<(Seq<char>, Seq<char>)>, p: LocV, key: Seq<char>) -> Seq<char> {
    match loc_get(loc, loc_key_spec(p, key)) {
        Some(t) => t,
        None => prettify_spec(key),
    }
}

pub open spec fn finished(loc: Seq<(Seq<char>, Seq<char>)>, p: LocV, e: (Seq<char>, VValue, Seq<char>)) -> (Seq<char>, Seq<char>, Seq<char>, VValue) {
    (e.0, entry_name(loc, p, e.0), e.2, e.1)
}

fn loc_key_of(p: &LocPattern, key: &str) -> (r: String)
    ensures
        r@ == loc_key_spec(match *p {
            LocPattern::AsIs => LocV::AsIs,
            LocPattern::Upper => LocV::Upper,
            LocPattern::Suffix(s) => LocV::Suffix(s@),
        }, key@),
{
    match p {
        LocPattern::AsIs => key.to_string(),
        LocPattern::Upper => to_uppercase(key),
        LocPattern::Suffix(s) => {
            let mut k = key.to_string();
            k.append(s);
            k
        },
    }
}

/// The error for a registry name not in the table.
pub open spec fn unknown_registry(name: Seq<char>) -> Seq<char> {
    "Unknown registry: "@ + name
}

/// Loads the registry `name` from its source files (listed and read by the
/// caller, in load order), resolving display names against `loc`.
pub fn load_registry(name: &str, files: &Vec<RegistryFile>, loc: &[(String, String)]) -> (r: Result<Vec<RegistryEntry>, String>)
    ensures
        match r {
            Err(e) => registry_pos_from(name@, 0) is None && e@ == unknown_registry(name@),
            Ok(v) => registry_pos_from(name@, 0) matches Some(k) && entries_view(v@) == files_state(
                registry_table()[k],
                files@.map_values(|f: RegistryFile| (f.name@, f.bytes@)),
            ).map_values(|e: (Seq<char>, VValue, Seq<char>)| finished(loc_view(loc@), registry_table()[k].loc, e)),
        },
{
    let regs = registries();
    proof {
        lemma_registry_pos(name@, 0);
    }
    let mut k: usize = 0;
    while k < regs.len() && !str_eq(regs[k].name, name)
        invariant
            k <= regs@.len(),
            configs_view(regs@) == registry_table(),
            registry_pos_from(name@, k as int) == registry_pos_from(name@, 0),
        decreases regs@.len() - k,
    {
        assert(configs_view(regs@)[k as int] == config_view(regs@[k as int]));
        k = k + 1;
    }
    if k == regs.len() {
        let mut e = String::from_str("Unknown registry: ");
        e.append(name);
        return Err(e);
    }
    assert(configs_view(regs@)[k as int] == config_view(regs@[k as int]));
    let c = &regs[k];
    let ghost cv = config_view(*c);
    let ghost fv = files@.map_values(|f: RegistryFile| (f.name@, f.bytes@));
    let mut st: Vec<(String, RawValue, String)> = Vec::new();
    let mut i: usize = 0;
    assert(state_view(st@) =~= files_state(cv, fv.subrange(0, 0)));
    while i < files.len()
        invariant
            i <= files@.len(),
            cv == config_view(*c),
            fv == files@.map_values(|f: RegistryFile| (f.name@, f.bytes@)),
            state_view(st@) == files_state(cv, fv.subrange(0, i as int)),
        decreases files@.len() - i,
    {
        let ghost sub = fv.subrange(0, i + 1);
        assert(sub.drop_last() =~= fv.subrange(0, i as int));
        assert(sub.last() == (files@[i as int].name@, files@[i as int].bytes@));
        let f = &files[i];
        let skip = match &c.source {
            Source::Folder(_) => !is_txt(f.name.as_str()),
            Source::File(_) => false,
        };
        if !skip {
            let text = lossy_string(f.bytes.as_slice());
            let block = parse(text.as_str());
            let rel = match &c.source {
                Source::Folder(d) => {
                    let mut r = String::from_str(*d);
                    r.append("/");
                    r.append(f.name.as_str());
                    assert(cv.source == SourceV::Folder(d@));
                    assert(r@ == d@ + "/"@ + f.name@);
                    r
                },
                Source::File(p) => {
                    assert(cv.source == SourceV::File(p@));
                    String::from_str(*p)
                },
            };
            assert(rel@ == rel_of(cv.source, files@[i as int].name@));
            assert(block.vview() == parse_spec(lossy_utf8(files@[i as int].bytes@)));
            collect_from_block(c, &block, rel.as_str(), &mut st);
            assert(state_view(st@) == files_state(cv, sub));
        } else {
            assert((cv.source is Folder) && !is_txt_name(files@[i as int].name@));
            assert(state_view(st@) == files_state(cv, sub));
        }
        i = i + 1;
    }
    assert(fv.subrange(0, files@.len() as int) =~= fv);
    let ghost lv = loc_view(loc@);
    let ghost all = state_view(st@);
    let mut rest = st;
    let mut out: Vec<RegistryEntry> = Vec::new();
    let ghost mut n: int = 0;
    assert(all.skip(0) =~= all);
    while rest.len() > 0
        invariant
            0 <= n <= all.len(),
            cv == config_view(*c),
            lv == loc_view(loc@),
            state_view(rest@) == all.skip(n),
            entries_view(out@) == all.take(n).map_values(|e: (Seq<char>, VValue, Seq<char>)| finished(lv, cv.loc, e)),
        decreases rest@.len(),
    {
        let ghost pre = rest@;
        assert(state_view(pre).len() == pre.len());
        let e = rest.remove(0);
        assert(rest@ =~= pre.skip(1));
        assert(state_view(pre)[0] == (e.0@, e.1.rview(), e.2@));
        assert(all.skip(n)[0] == all[n]);
        assert(state_view(rest@) =~= state_view(pre).skip(1));
        assert(state_view(pre).skip(1) =~= all.skip(n + 1));
        let lk = loc_key_of(&c.loc, e.0.as_str());
        let name = match loc_lookup(loc, &lk) {
            Some(t) => t,
            None => prettify(e.0.as_str()),
        };
        let ghost before = out@;
        let entry = RegistryEntry { key: e.0, name, source_file: e.2, raw: e.1 };
        out.push(entry);
        proof {
            assert(all.take(n + 1) =~= all.take(n).push(all[n]));
            assert(entries_view(out@) =~= entries_view(before).push(entry_view(entry)));
            n = n + 1;
        }
    }
    assert(all.take(n) =~= all);
    Ok(out)
}

// ---------------------------------------------------------------------------
// Known modifiers
// ---------------------------------------------------------------------------

/// How a modifier's value is entered: `Percent` values are fractions in the
/// files (0.05 == +5%), `Flat` absolute numbers, `Boolean` `yes`/`no`.
#[derive(Debug, Clone, Copy, PartialEq, Eq, Structural)]
pub enum ModifierKind {
    Percent,
    Flat,
    Boolean,
}

/// One known modifier key and its value kind.
#[derive(Debug, Clone, Copy)]
pub struct KnownModifier {
    pub key: &'static str,
    pub kind: ModifierKind,
}

/// The curated modifier keys with their value kinds.
pub open spec fn known_table() -> Seq<(Seq<char>, ModifierKind)> {
    seq![
        ("discipline"@, ModifierKind::Percent),
        ("land_morale"@, ModifierKind::Percent),
        ("infantry_power"@, ModifierKind::Percent),
        ("cavalry_power"@, ModifierKind::Percent),
        ("artillery_power"@, ModifierKind::Percent),
        ("fire_damage"@, ModifierKind::Percent),
        ("shock_damage"@, ModifierKind::Percent),
        ("fire_damage_received"@, ModifierKind::Percent),
        ("shock_damage_received"@, ModifierKind::Percent),
        ("cav_to_inf_ratio"@, ModifierKind::Percent),
        ("cavalry_flanking"@, ModifierKind::Percent),
        ("backrow_artillery_damage"@, ModifierKind::Percent),
        ("infantry_cost"@, ModifierKind::Percent),
        ("cavalry_cost"@, ModifierKind::Percent),
        ("artillery_cost"@, ModifierKind::Percent),
        ("land_maintenance_modifier"@, ModifierKind::Percent),
        ("reinforce_speed"@, ModifierKind::Percent),
        ("recover_army_morale_speed"@, ModifierKind::Percent),
        ("land_forcelimit_modifier"@, ModifierKind::Percent),
        ("global_manpower_modifier"@, ModifierKind::Percent),
        ("manpower_recovery_speed"@, ModifierKind::Percent),
        ("mercenary_cost"@, ModifierKind::Percent),
        ("merc_maintenance_modifier"@, ModifierKind::Percent),
        ("global_regiment_cost"@, ModifierKind::Percent),
        ("movement_speed"@, ModifierKind::Percent),
        ("siege_ability"@, ModifierKind::Percent),
        ("defensiveness"@, ModifierKind::Percent),
        ("garrison_size"@, ModifierKind::Percent),
        ("land_attrition"@, ModifierKind::Percent),
        ("hostile_attrition"@, ModifierKind::Flat),
        ("army_tradition"@, ModifierKind::Flat),
        ("army_tradition_decay"@, ModifierKind::Percent),
        ("leader_land_fire"@, ModifierKind::Flat),
        ("leader_land_shock"@, ModifierKind::Flat),
        ("leader_land_manuever"@, ModifierKind::Flat),
        ("leader_siege"@, ModifierKind::Flat),
        ("general_cost"@, ModifierKind::Percent),
        ("free_leader_pool"@, ModifierKind::Flat),
        ("land_forcelimit"@, ModifierKind::Flat),
        ("naval_morale"@, ModifierKind::Percent),
        ("galley_power"@, ModifierKind::Percent),
        ("heavy_ship_power"@, ModifierKind::Percent),
        ("light_ship_power"@, ModifierKind::Percent),
        ("ship_durability"@, ModifierKind::Percent),
        ("naval_maintenance_modifier"@, ModifierKind::Percent),
        ("naval_forcelimit_modifier"@, ModifierKind::Percent),
        ("global_ship_cost"@, ModifierKind::Percent),
        ("global_ship_repair"@, ModifierKind::Percent),
        ("global_sailors_modifier"@, ModifierKind::Percent),
        ("sailors_recovery_speed"@, ModifierKind::Percent),
        ("blockade_efficiency"@, ModifierKind::Percent),
        ("naval_attrition"@, ModifierKind::Percent),
        ("navy_tradition"@, ModifierKind::Flat),
        ("navy_tradition_decay"@, ModifierKind::Percent),
        ("leader_naval_fire"@, ModifierKind::Flat),
        ("leader_naval_shock"@, ModifierKind::Flat),
        ("leader_naval_manuever"@, ModifierKind::Flat),
        ("sea_repair"@, ModifierKind::Boolean),
        ("global_tax_modifier"@, ModifierKind::Percent),
        ("production_efficiency"@, ModifierKind::Percent),
        ("trade_efficiency"@, ModifierKind::Percent),
        ("global_trade_goods_size_modifier"@, ModifierKind::Percent),
        ("global_trade_power"@, ModifierKind::Percent),
        ("global_own_trade_power"@, ModifierKind::Percent),
        ("global_foreign_trade_power"@, ModifierKind::Percent),
        ("provincial_trade_power_modifier"@, ModifierKind::Percent),
        ("caravan_power"@, ModifierKind::Percent),
        ("trade_range_modifier"@, ModifierKind::Percent),
        ("merchants"@, ModifierKind::Flat),
        ("placed_merchant_power"@, ModifierKind::Flat),
        ("interest"@, ModifierKind::Flat),
        ("inflation_reduction"@, ModifierKind::Flat),
        ("development_cost"@, ModifierKind::Percent),
        ("build_cost"@, ModifierKind::Percent),
        ("fort_maintenance_modifier"@, ModifierKind::Percent),
        ("available_province_loot"@, ModifierKind::Percent),
        ("global_prosperity_growth"@, ModifierKind::Percent),
        ("global_unrest"@, ModifierKind::Flat),
        ("global_autonomy"@, ModifierKind::Percent),
        ("max_absolutism"@, ModifierKind::Flat),
        ("yearly_absolutism"@, ModifierKind::Flat),
        ("stability_cost_modifier"@, ModifierKind::Percent),
        ("war_exhaustion"@, ModifierKind::Flat),
        ("war_exhaustion_cost"@, ModifierKind::Percent),
        ("prestige"@, ModifierKind::Flat),
        ("prestige_decay"@, ModifierKind::Percent),
        ("legitimacy"@, ModifierKind::Flat),
        ("republican_tradition"@, ModifierKind::Flat),
        ("devotion"@, ModifierKind::Flat),
        ("horde_unity"@, ModifierKind::Flat),
        ("meritocracy"@, ModifierKind::Flat),
        ("yearly_corruption"@, ModifierKind::Flat),
        ("advisor_cost"@, ModifierKind::Percent),
        ("advisor_pool"@, ModifierKind::Flat),
        ("possible_policy"@, ModifierKind::Flat),
        ("free_policy"@, ModifierKind::Flat),
        ("technology_cost"@, ModifierKind::Percent),
        ("idea_cost"@, ModifierKind::Percent),
        ("adm_tech_cost_modifier"@, ModifierKind::Percent),
        ("dip_tech_cost_modifier"@, ModifierKind::Percent),
        ("mil_tech_cost_modifier"@, ModifierKind::Percent),
        ("global_institution_spread"@, ModifierKind::Percent),
        ("embracement_cost"@, ModifierKind::Percent),
        ("innovativeness_gain"@, ModifierKind::Percent),
        ("diplomatic_reputation"@, ModifierKind::Flat),
        ("diplomatic_upkeep"@, ModifierKind::Flat),
        ("improve_relation_modifier"@, ModifierKind::Percent),
        ("ae_impact"@, ModifierKind::Percent),
        ("province_warscore_cost"@, ModifierKind::Percent),
        ("vassal_income"@, ModifierKind::Percent),
        ("liberty_desire"@, ModifierKind::Flat),
        ("reduced_liberty_desire"@, ModifierKind::Flat),
        ("spy_offence"@, ModifierKind::Percent),
        ("global_spy_defence"@, ModifierKind::Percent),
        ("rebel_support_efficiency"@, ModifierKind::Percent),
        ("tolerance_own"@, ModifierKind::Flat),
        ("tolerance_heathen"@, ModifierKind::Flat),
        ("tolerance_heretic"@, ModifierKind::Flat),
        ("num_accepted_cultures"@, ModifierKind::Flat),
        ("global_missionary_strength"@, ModifierKind::Percent),
        ("missionaries"@, ModifierKind::Flat),
        ("religious_unity"@, ModifierKind::Percent),
        ("papal_influence"@, ModifierKind::Flat),
        ("monthly_fervor_increase"@, ModifierKind::Flat),
        ("church_power_modifier"@, ModifierKind::Percent),
        ("colonists"@, ModifierKind::Flat),
        ("global_colonial_growth"@, ModifierKind::Flat),
        ("global_settler_increase"@, ModifierKind::Flat),
        ("range"@, ModifierKind::Percent),
        ("fort_level"@, ModifierKind::Flat),
        ("may_recruit_female_generals"@, ModifierKind::Boolean),
        ("auto_explore_adjacent_to_colony"@, ModifierKind::Boolean),
        ("may_explore"@, ModifierKind::Boolean),
        ("cb_on_overseas"@, ModifierKind::Boolean),
        ("cb_on_primitives"@, ModifierKind::Boolean),
        ("cb_on_religious_enemies"@, ModifierKind::Boolean),
        ("may_perform_slave_raid"@, ModifierKind::Boolean),
        ("reduced_stab_impacts"@, ModifierKind::Boolean),
        ("idea_claim_colonies"@, ModifierKind::Boolean),
        ("extra_manpower_at_religious_war"@, ModifierKind::Boolean),
        ("may_establish_frontier"@, ModifierKind::Boolean),
    ]
}

pub open spec fn known_view(v: Seq<KnownModifier>) -> Seq<(Seq<char>, ModifierKind)> {
    v.map_values(|m: KnownModifier| (m.key@, m.kind))
}

/// The curated known-modifier list (key and value kind); keys not in it
/// are still editable as free text.
pub fn known_modifiers() -> (r: Vec<KnownModifier>)
    ensures
        known_view(r@) == known_table(),
{
    let v = vec![
        KnownModifier { key: "discipline", kind: ModifierKind::Percent },
        KnownModifier { key: "land_morale", kind: ModifierKind::Percent },
        KnownModifier { key: "infantry_power", kind: ModifierKind::Percent },
        KnownModifier { key: "cavalry_power", kind: ModifierKind::Percent },
        KnownModifier { key: "artillery_power", kind: ModifierKind::Percent },
        KnownModifier { key: "fire_damage", kind: ModifierKind::Percent },
        KnownModifier { key: "shock_damage", kind: ModifierKind::Percent },
        KnownModifier { key: "fire_damage_received", kind: ModifierKind::Percent },
        KnownModifier { key: "shock_damage_received", kind: ModifierKind::Percent },
        KnownModifier { key: "cav_to_inf_ratio", kind: ModifierKind::Percent },
        KnownModifier { key: "cavalry_flanking", kind: ModifierKind::Percent },
        KnownModifier { key: "backrow_artillery_damage", kind: ModifierKind::Percent },
        KnownModifier { key: "infantry_cost", kind: ModifierKind::Percent },
        KnownModifier { key: "cavalry_cost", kind: ModifierKind::Percent },
        KnownModifier { key: "artillery_cost", kind: ModifierKind::Percent },
        KnownModifier { key: "land_maintenance_modifier", kind: ModifierKind::Percent },
        KnownModifier { key: "reinforce_speed", kind: ModifierKind::Percent },
        KnownModifier { key: "recover_army_morale_speed", kind: ModifierKind::Percent },
        KnownModifier { key: "land_forcelimit_modifier", kind: ModifierKind::Percent },
        KnownModifier { key: "global_manpower_modifier", kind: ModifierKind::Percent },
        KnownModifier { key: "manpower_recovery_speed", kind: ModifierKind::Percent },
        KnownModifier { key: "mercenary_cost", kind: ModifierKind::Percent },
        KnownModifier { key: "merc_maintenance_modifier", kind: ModifierKind::Percent },
        KnownModifier { key: "global_regiment_cost", kind: ModifierKind::Percent },
        KnownModifier { key: "movement_speed", kind: ModifierKind::Percent },
        KnownModifier { key: "siege_ability", kind: ModifierKind::Percent },
        KnownModifier { key: "defensiveness", kind: ModifierKind::Percent },
        KnownModifier { key: "garrison_size", kind: ModifierKind::Percent },
        KnownModifier { key: "land_attrition", kind: ModifierKind::Percent },
        KnownModifier { key: "hostile_attrition", kind: ModifierKind::Flat },
        KnownModifier { key: "army_tradition", kind: ModifierKind::Flat },
        KnownModifier { key: "army_tradition_decay", kind: ModifierKind::Percent },
        KnownModifier { key: "leader_land_fire", kind: ModifierKind::Flat },
        KnownModifier { key: "leader_land_shock", kind: ModifierKind::Flat },
        KnownModifier { key: "leader_land_manuever", kind: ModifierKind::Flat },
        KnownModifier { key: "leader_siege", kind: ModifierKind::Flat },
        KnownModifier { key: "general_cost", kind: ModifierKind::Percent },
        KnownModifier { key: "free_leader_pool", kind: ModifierKind::Flat },
        KnownModifier { key: "land_forcelimit", kind: ModifierKind::Flat },
        KnownModifier { key: "naval_morale", kind: ModifierKind::Percent },
        KnownModifier { key: "galley_power", kind: ModifierKind::Percent },
        KnownModifier { key: "heavy_ship_power", kind: ModifierKind::Percent },
        KnownModifier { key: "light_ship_power", kind: ModifierKind::Percent },
        KnownModifier { key: "ship_durability", kind: ModifierKind::Percent },
        KnownModifier { key: "naval_maintenance_modifier", kind: ModifierKind::Percent },
        KnownModifier { key: "naval_forcelimit_modifier", kind: ModifierKind::Percent },
        KnownModifier { key: "global_ship_cost", kind: ModifierKind::Percent },
        KnownModifier { key: "global_ship_repair", kind: ModifierKind::Percent },
        KnownModifier { key: "global_sailors_modifier", kind: ModifierKind::Percent },
        KnownModifier { key: "sailors_recovery_speed", kind: ModifierKind::Percent },
        KnownModifier { key: "blockade_efficiency", kind: ModifierKind::Percent },
        KnownModifier { key: "naval_attrition", kind: ModifierKind::Percent },
        KnownModifier { key: "navy_tradition", kind: ModifierKind::Flat },
        KnownModifier { key: "navy_tradition_decay", kind: ModifierKind::Percent },
        KnownModifier { key: "leader_naval_fire", kind: ModifierKind::Flat },
        KnownModifier { key: "leader_naval_shock", kind: ModifierKind::Flat },
        KnownModifier { key: "leader_naval_manuever", kind: ModifierKind::Flat },
        KnownModifier { key: "sea_repair", kind: ModifierKind::Boolean },
        KnownModifier { key: "global_tax_modifier", kind: ModifierKind::Percent },
        KnownModifier { key: "production_efficiency", kind: ModifierKind::Percent },
        KnownModifier { key: "trade_efficiency", kind: ModifierKind::Percent },
        KnownModifier { key: "global_trade_goods_size_modifier", kind: ModifierKind::Percent },
        KnownModifier { key: "global_trade_power", kind: ModifierKind::Percent },
        KnownModifier { key: "global_own_trade_power", kind: ModifierKind::Percent },
        KnownModifier { key: "global_foreign_trade_power", kind: ModifierKind::Percent },
        KnownModifier { key: "provincial_trade_power_modifier", kind: ModifierKind::Percent },
        KnownModifier { key: "caravan_power", kind: ModifierKind::Percent },
        KnownModifier { key: "trade_range_modifier", kind: ModifierKind::Percent },
        KnownModifier { key: "merchants", kind: ModifierKind::Flat },
        KnownModifier { key: "placed_merchant_power", kind: ModifierKind::Flat },
        KnownModifier { key: "interest", kind: ModifierKind::Flat },
        KnownModifier { key: "inflation_reduction", kind: ModifierKind::Flat },
        KnownModifier { key: "development_cost", kind: ModifierKind::Percent },
        KnownModifier { key: "build_cost", kind: ModifierKind::Percent },
        KnownModifier { key: "fort_maintenance_modifier", kind: ModifierKind::Percent },
        KnownModifier { key: "available_province_loot", kind: ModifierKind::Percent },
        KnownModifier { key: "global_prosperity_growth", kind: ModifierKind::Percent },
        KnownModifier { key: "global_unrest", kind: ModifierKind::Flat },
        KnownModifier { key: "global_autonomy", kind: ModifierKind::Percent },
        KnownModifier { key: "max_absolutism", kind: ModifierKind::Flat },
        KnownModifier { key: "yearly_absolutism", kind: ModifierKind::Flat },
        KnownModifier { key: "stability_cost_modifier", kind: ModifierKind::Percent },
        KnownModifier { key: "war_exhaustion", kind: ModifierKind::Flat },
        KnownModifier { key: "war_exhaustion_cost", kind: ModifierKind::Percent },
        KnownModifier { key: "prestige", kind: ModifierKind::Flat },
        KnownModifier { key: "prestige_decay", kind: ModifierKind::Percent },
        KnownModifier { key: "legitimacy", kind: ModifierKind::Flat },
        KnownModifier { key: "republican_tradition", kind: ModifierKind::Flat },
        KnownModifier { key: "devotion", kind: ModifierKind::Flat },
        KnownModifier { key: "horde_unity", kind: ModifierKind::Flat },
        KnownModifier { key: "meritocracy", kind: ModifierKind::Flat },
        KnownModifier { key: "yearly_corruption", kind: ModifierKind::Flat },
        KnownModifier { key: "advisor_cost", kind: ModifierKind::Percent },
        KnownModifier { key: "advisor_pool", kind: ModifierKind::Flat },
        KnownModifier { key: "possible_policy", kind: ModifierKind::Flat },
        KnownModifier { key: "free_policy", kind: ModifierKind::Flat },
        KnownModifier { key: "technology_cost", kind: ModifierKind::Percent },
        KnownModifier { key: "idea_cost", kind: ModifierKind::Percent },
        KnownModifier { key: "adm_tech_cost_modifier", kind: ModifierKind::Percent },
        KnownModifier { key: "dip_tech_cost_modifier", kind: ModifierKind::Percent },
        KnownModifier { key: "mil_tech_cost_modifier", kind: ModifierKind::Percent },
        KnownModifier { key: "global_institution_spread", kind: ModifierKind::Percent },
        KnownModifier { key: "embracement_cost", kind: ModifierKind::Percent },
        KnownModifier { key: "innovativeness_gain", kind: ModifierKind::Percent },
        KnownModifier { key: "diplomatic_reputation", kind: ModifierKind::Flat },
        KnownModifier { key: "diplomatic_upkeep", kind: ModifierKind::Flat },
        KnownModifier { key: "improve_relation_modifier", kind: ModifierKind::Percent },
        KnownModifier { key: "ae_impact", kind: ModifierKind::Percent },
        KnownModifier { key: "province_warscore_cost", kind: ModifierKind::Percent },
        KnownModifier { key: "vassal_income", kind: ModifierKind::Percent },
        KnownModifier { key: "liberty_desire", kind: ModifierKind::Flat },
        KnownModifier { key: "reduced_liberty_desire", kind: ModifierKind::Flat },
        KnownModifier { key: "spy_offence", kind: ModifierKind::Percent },
        KnownModifier { key: "global_spy_defence", kind: ModifierKind::Percent },
        KnownModifier { key: "rebel_support_efficiency", kind: ModifierKind::Percent },
        KnownModifier { key: "tolerance_own", kind: ModifierKind::Flat },
        KnownModifier { key: "tolerance_heathen", kind: ModifierKind::Flat },
        KnownModifier { key: "tolerance_heretic", kind: ModifierKind::Flat },
        KnownModifier { key: "num_accepted_cultures", kind: ModifierKind::Flat },
        KnownModifier { key: "global_missionary_strength", kind: ModifierKind::Percent },
        KnownModifier { key: "missionaries", kind: ModifierKind::Flat },
        KnownModifier { key: "religious_unity", kind: ModifierKind::Percent },
        KnownModifier { key: "papal_influence", kind: ModifierKind::Flat },
        KnownModifier { key: "monthly_fervor_increase", kind: ModifierKind::Flat },
        KnownModifier { key: "church_power_modifier", kind: ModifierKind::Percent },
        KnownModifier { key: "colonists", kind: ModifierKind::Flat },
        KnownModifier { key: "global_colonial_growth", kind: ModifierKind::Flat },
        KnownModifier { key: "global_settler_increase", kind: ModifierKind::Flat },
        KnownModifier { key: "range", kind: ModifierKind::Percent },
        KnownModifier { key: "fort_level", kind: ModifierKind::Flat },
        KnownModifier { key: "may_recruit_female_generals", kind: ModifierKind::Boolean },
        KnownModifier { key: "auto_explore_adjacent_to_colony", kind: ModifierKind::Boolean },
        KnownModifier { key: "may_explore", kind: ModifierKind::Boolean },
        KnownModifier { key: "cb_on_overseas", kind: ModifierKind::Boolean },
        KnownModifier { key: "cb_on_primitives", kind: ModifierKind::Boolean },
        KnownModifier { key: "cb_on_religious_enemies", kind: ModifierKind::Boolean },
        KnownModifier { key: "may_perform_slave_raid", kind: ModifierKind::Boolean },
        KnownModifier { key: "reduced_stab_impacts", kind: ModifierKind::Boolean },
        KnownModifier { key: "idea_claim_colonies", kind: ModifierKind::Boolean },
        KnownModifier { key: "extra_manpower_at_religious_war", kind: ModifierKind::Boolean },
        KnownModifier { key: "may_establish_frontier", kind: ModifierKind::Boolean },
    ];

    assert(known_view(v@) =~= known_table());
    v
}

/// The known-modifier list, served to the frontend.
pub fn get_known_modifiers() -> (r: Vec<KnownModifier>)
    ensures
        known_view(r@) == known_table(),
{
    known_modifiers()
}

// ---------------------------------------------------------------------------
// Laws of accumulation
// ---------------------------------------------------------------------------

/// Whether no two accumulated entries share a key.
pub open spec fn distinct_keys(st: Seq<(Seq<char>, VValue, Seq<char>)>) -> bool {
    forall|i: int, j: int| 0 <= i < j < st.len() ==> (#[trigger] st[i]).0 != (#[trigger] st[j]).0
}

/// One definition added keeps every key once: the key's entry ends up
/// holding the new content and file (in place when it was known, appended
/// when new), and every other entry stays where and as it was.
pub proof fn lemma_push_entry(st: Seq<(Seq<char>, VValue, Seq<char>)>, key: Seq<char>, raw: VValue, src: Seq<char>)
    requires
        distinct_keys(st),
    ensures
        distinct_keys(push_entry_spec(st, key, raw, src)),
        exists|i: int| 0 <= i < push_entry_spec(st, key, raw, src).len() && push_entry_spec(st, key, raw, src)[i] == (key, raw, src),
        forall|k: int| 0 <= k < st.len() && (#[trigger] st[k]).0 != key ==> push_entry_spec(st, key, raw, src)[k] == st[k],
        push_entry_spec(st, key, raw, src).len() == st.len() + (if state_index(st, key) is Some { 0int } else { 1int }),
{
    lemma_state_index(st, key);
    let r = push_entry_spec(st, key, raw, src);
    match state_index(st, key) {
        Some(i) => {
            assert(r[i] == (key, raw, src));
            assert forall|a: int, b: int| 0 <= a < b < r.len() implies (#[trigger] r[a]).0 != (#[trigger] r[b]).0 by {
                if a != i && b != i {
                    assert(r[a] == st[a] && r[b] == st[b]);
                } else if a == i {
                    assert(r[b] == st[b]);
                    assert(st[i].0 != st[b].0);
                } else {
                    assert(r[a] == st[a]);
                    assert(st[a].0 != st[i].0);
                }
            }
        },
        None => {
            assert(r[st.len() as int] == (key, raw, src));
            assert forall|a: int, b: int| 0 <= a < b < r.len() implies (#[trigger] r[a]).0 != (#[trigger] r[b]).0 by {
                if b < st.len() {
                    assert(r[a] == st[a] && r[b] == st[b]);
                } else {
                    assert(r[a] == st[a]);
                }
            }
        },
    }
}

proof fn lemma_accum_distinct(st: Seq<(Seq<char>, VValue, Seq<char>)>, pushes: Seq<(Seq<char>, VValue)>, src: Seq<char>)
    requires
        distinct_keys(st),
    ensures
        distinct_keys(accum_spec(st, pushes, src)),
    decreases pushes.len(),
{
    if pushes.len() > 0 {
        lemma_accum_distinct(st, pushes.drop_last(), src);
        lemma_push_entry(accum_spec(st, pushes.drop_last(), src), pushes.last().0, pushes.last().1, src);
    }
}

/// A loaded registry lists every key once, however many files define it
/// (a later definition overrides an earlier one: see [`lemma_push_entry`]).
pub proof fn lemma_registry_keys_unique(c: ConfigView, files: Seq<(Seq<char>, Seq<u8>)>)
    ensures
        distinct_keys(files_state(c, files)),
    decreases files.len(),
{
    if files.len() > 0 {
        lemma_registry_keys_unique(c, files.drop_last());
        let f = files.last();
        if !((c.source is Folder) && !is_txt_name(f.0)) {
            lemma_accum_distinct(files_state(c, files.drop_last()), file_pushes(c, parse_spec(lossy_utf8(f.1))), rel_of(c.source, f.0));
        }
    }
}

} // verus!
