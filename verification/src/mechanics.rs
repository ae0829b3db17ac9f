//! Country-interior mechanics: one config-driven definition editor stamped
//! onto many `common/` registries. Each registry is a [`Family`] in the table
//! [`families`]: its directory, the project file new entities scaffold into,
//! the loc key pattern, typed scalars (with enum option sets and pickers),
//! flat `modifier`-style blocks, trigger/effect/weight script blocks, whether
//! the block *is* its modifier list (`self_modifier`), whether it carries an
//! ordered list of child steps (`ordered`), whether it nests under a religion
//! group (`group_nested`), its availability trigger, the scalar keys holding
//! event ids, bare-token list fields, a named-sprite icon emission, and a
//! create scaffold. Everything unmodeled round-trips untouched.
//!
//! Listing and reading the files is the caller's part, and so is reading a
//! `color` block's numbers (they may be fractions).

use vstd::prelude::*;
use crate::fields::{contains_static, has_block, raw_block, raw_text, scalar_value, texts, trimmed_scalar, trimmed_value, unmodeled, unmodeled_keys, unmodeled_strings};
use crate::script_tree::{trim_chars, trim_spec};
use crate::mod_writer::string_path;
use crate::on_actions::{bare_strings, keyed_scalars, named_block};
use crate::paradox::{bare_texts, keyed_blocks, parse, parse_spec, Block, Value};
use crate::recents::{to_lowercase, unicode_lower};
use crate::text::{chars_of, clone_strings, lossy_string, lossy_utf8, segment, segment_spec, string_from_chars, loc_get, loc_lookup, loc_resolve, loc_view, opt_view, prettify, prettify_spec, resolve_spec, str_eq, strings_of};

verus! {

// ---------------------------------------------------------------------------
// Family config
// ---------------------------------------------------------------------------

/// One typed scalar of a family: its key, kind (`num` | `int` | `bool` |
/// `enum` | `str` | `token`), enum options, and picker (`""` | `building` |
/// `trade_good` | `province`).
pub struct ScalarSpec {
    pub key: &'static str,
    pub kind: &'static str,
    pub options: Vec<&'static str>,
    pub picker: &'static str,
}

/// One script block: its name and the known-key registry (`triggers` |
/// `effects`) the tree editor suggests from.
pub struct BlockSpec {
    pub name: &'static str,
    pub registry: &'static str,
}

/// One bare-token list field (`manufactory = { grain fish }`) and its picker.
pub struct ListSpec {
    pub name: &'static str,
    pub picker: &'static str,
}

/// A named sprite emitted on create: appended to `gfx_file`, named
/// `<sprite_prefix><key>`, pointing at the base texture `texture`.
pub struct IconGfx {
    pub gfx_file: &'static str,
    pub sprite_prefix: &'static str,
    pub texture: &'static str,
}

/// A mechanics family.
pub struct Family {
    pub id: &'static str,
    pub label: &'static str,
    pub dir: &'static str,
    pub project_file: &'static str,
    pub has_color: bool,
    /// `none` | `sprite` | `named`.
    pub icon: &'static str,
    pub scalars: Vec<ScalarSpec>,
    pub modifiers: Vec<&'static str>,
    /// The block itself is a flat modifier list.
    pub self_modifier: bool,
    pub scripts: Vec<BlockSpec>,
    /// Scalar keys whose values are event ids.
    pub event_ref_keys: Vec<&'static str>,
    /// Country-shaped availability trigger key (`""` = none).
    pub avail_trigger: &'static str,
    /// Carries ordered child modifier blocks.
    pub ordered: bool,
    /// Nested under `<group> = { religious_schools = { … } }`.
    pub group_nested: bool,
    pub list_fields: Vec<ListSpec>,
    pub icon_gfx: Option<IconGfx>,
    /// Desc loc key pattern: `false` → `desc_<key>`, `true` → `<key>_desc`.
    pub desc_suffix: bool,
}

/// The spec view of a family.
pub struct FamilyView {
    pub id: Seq<char>,
    pub label: Seq<char>,
    pub dir: Seq<char>,
    pub project_file: Seq<char>,
    pub has_color: bool,
    pub icon: Seq<char>,
    /// (key, kind, options, picker)
    pub scalars: Seq<(Seq<char>, Seq<char>, Seq<Seq<char>>, Seq<char>)>,
    pub modifiers: Seq<Seq<char>>,
    pub self_modifier: bool,
    /// (name, registry)
    pub scripts: Seq<(Seq<char>, Seq<char>)>,
    pub event_ref_keys: Seq<Seq<char>>,
    pub avail_trigger: Seq<char>,
    pub ordered: bool,
    pub group_nested: bool,
    /// (name, picker)
    pub list_fields: Seq<(Seq<char>, Seq<char>)>,
    /// (gfx_file, sprite_prefix, texture)
    pub icon_gfx: Option<(Seq<char>, Seq<char>, Seq<char>)>,
    pub desc_suffix: bool,
}

pub open spec fn scalar_spec_view(s: ScalarSpec) -> (Seq<char>, Seq<char>, Seq<Seq<char>>, Seq<char>) {
    (s.key@, s.kind@, texts(s.options@), s.picker@)
}

pub open spec fn scalar_specs_view(v: Seq<ScalarSpec>) -> Seq<(Seq<char>, Seq<char>, Seq<Seq<char>>, Seq<char>)> {
    v.map_values(|s: ScalarSpec| scalar_spec_view(s))
}

pub open spec fn block_spec_view(b: BlockSpec) -> (Seq<char>, Seq<char>) {
    (b.name@, b.registry@)
}

pub open spec fn block_specs_view(v: Seq<BlockSpec>) -> Seq<(Seq<char>, Seq<char>)> {
    v.map_values(|b: BlockSpec| block_spec_view(b))
}

pub open spec fn list_spec_view(l: ListSpec) -> (Seq<char>, Seq<char>) {
    (l.name@, l.picker@)
}

pub open spec fn list_specs_view(v: Seq<ListSpec>) -> Seq<(Seq<char>, Seq<char>)> {
    v.map_values(|l: ListSpec| list_spec_view(l))
}

pub open spec fn icon_gfx_view(g: IconGfx) -> (Seq<char>, Seq<char>, Seq<char>) {
    (g.gfx_file@, g.sprite_prefix@, g.texture@)
}

pub open spec fn family_view(f: Family) -> FamilyView {
    FamilyView {
        id: f.id@,
        label: f.label@,
        dir: f.dir@,
        project_file: f.project_file@,
        has_color: f.has_color,
        icon: f.icon@,
        scalars: scalar_specs_view(f.scalars@),
        modifiers: texts(f.modifiers@),
        self_modifier: f.self_modifier,
        scripts: block_specs_view(f.scripts@),
        event_ref_keys: texts(f.event_ref_keys@),
        avail_trigger: f.avail_trigger@,
        ordered: f.ordered,
        group_nested: f.group_nested,
        list_fields: list_specs_view(f.list_fields@),
        icon_gfx: match f.icon_gfx {
            Some(g) => Some(icon_gfx_view(g)),
            None => None,
        },
        desc_suffix: f.desc_suffix,
    }
}

pub open spec fn families_view(v: Seq<Family>) -> Seq<FamilyView> {
    v.map_values(|f: Family| family_view(f))
}

// ---------------------------------------------------------------------------
// The table
// ---------------------------------------------------------------------------

pub open spec fn fam_0() -> FamilyView {
    FamilyView {
        id: "disasters"@,
        label: "Disasters"@,
        dir: "common/disasters"@,
        project_file: "common/disasters/zz_eutoolkit_disasters.txt"@,
        has_color: false,
        icon: "none"@,
        scalars: seq![("on_start"@, "str"@, Seq::<Seq<char>>::empty(), ""@), ("on_end"@, "str"@, Seq::<Seq<char>>::empty(), ""@)],
        modifiers: seq!["modifier"@],
        self_modifier: false,
        scripts: seq![("potential"@, "triggers"@), ("can_start"@, "triggers"@), ("can_stop"@, "triggers"@), ("can_end"@, "triggers"@), ("progress"@, "triggers"@)],
        event_ref_keys: seq!["on_start"@, "on_end"@],
        avail_trigger: "can_start"@,
        ordered: false,
        group_nested: false,
        list_fields: Seq::empty(),
        icon_gfx: None,
        desc_suffix: false,
    }
}

pub open spec fn fam_1() -> FamilyView {
    FamilyView {
        id: "parliament_issues"@,
        label: "Parliament Issues"@,
        dir: "common/parliament_issues"@,
        project_file: "common/parliament_issues/zz_eutoolkit_parliament_issues.txt"@,
        has_color: false,
        icon: "none"@,
        scalars: seq![("category"@, "int"@, Seq::<Seq<char>>::empty(), ""@)],
        modifiers: Seq::<Seq<char>>::empty(),
        self_modifier: false,
        scripts: seq![("allow"@, "triggers"@), ("effect"@, "effects"@), ("ai_will_do"@, "triggers"@)],
        event_ref_keys: Seq::<Seq<char>>::empty(),
        avail_trigger: "allow"@,
        ordered: false,
        group_nested: false,
        list_fields: Seq::empty(),
        icon_gfx: None,
        desc_suffix: false,
    }
}

pub open spec fn fam_2() -> FamilyView {
    FamilyView {
        id: "parliament_bribes"@,
        label: "Parliament Bribes"@,
        dir: "common/parliament_bribes"@,
        project_file: "common/parliament_bribes/zz_eutoolkit_parliament_bribes.txt"@,
        has_color: false,
        icon: "none"@,
        scalars: Seq::empty(),
        modifiers: Seq::<Seq<char>>::empty(),
        self_modifier: false,
        scripts: seq![("trigger"@, "triggers"@), ("effect"@, "effects"@), ("chance"@, "triggers"@), ("ai_will_do"@, "triggers"@)],
        event_ref_keys: Seq::<Seq<char>>::empty(),
        avail_trigger: "trigger"@,
        ordered: false,
        group_nested: false,
        list_fields: Seq::empty(),
        icon_gfx: None,
        desc_suffix: false,
    }
}

pub open spec fn fam_3() -> FamilyView {
    FamilyView {
        id: "factions"@,
        label: "Court Factions"@,
        dir: "common/factions"@,
        project_file: "common/factions/zz_eutoolkit_factions.txt"@,
        has_color: false,
        icon: "none"@,
        scalars: seq![("monarch_power"@, "enum"@, seq!["ADM"@, "DIP"@, "MIL"@], ""@), ("always"@, "bool"@, Seq::<Seq<char>>::empty(), ""@)],
        modifiers: seq!["modifier"@],
        self_modifier: false,
        scripts: Seq::empty(),
        event_ref_keys: Seq::<Seq<char>>::empty(),
        avail_trigger: ""@,
        ordered: false,
        group_nested: false,
        list_fields: Seq::empty(),
        icon_gfx: None,
        desc_suffix: false,
    }
}

pub open spec fn fam_4() -> FamilyView {
    FamilyView {
        id: "personal_deities"@,
        label: "Personal Deities"@,
        dir: "common/personal_deities"@,
        project_file: "common/personal_deities/zz_eutoolkit_personal_deities.txt"@,
        has_color: false,
        icon: "none"@,
        scalars: seq![("sprite"@, "int"@, Seq::<Seq<char>>::empty(), ""@)],
        modifiers: Seq::<Seq<char>>::empty(),
        self_modifier: true,
        scripts: seq![("potential"@, "triggers"@), ("trigger"@, "triggers"@), ("effect"@, "effects"@), ("removed_effect"@, "effects"@), ("ai_will_do"@, "triggers"@)],
        event_ref_keys: Seq::<Seq<char>>::empty(),
        avail_trigger: "potential"@,
        ordered: false,
        group_nested: false,
        list_fields: Seq::empty(),
        icon_gfx: None,
        desc_suffix: false,
    }
}

pub open spec fn fam_5() -> FamilyView {
    FamilyView {
        id: "church_aspects"@,
        label: "Church Aspects"@,
        dir: "common/church_aspects"@,
        project_file: "common/church_aspects/zz_eutoolkit_church_aspects.txt"@,
        has_color: false,
        icon: "none"@,
        scalars: seq![("cost"@, "int"@, Seq::<Seq<char>>::empty(), ""@)],
        modifiers: seq!["modifier"@],
        self_modifier: false,
        scripts: seq![("effect"@, "effects"@), ("allow"@, "triggers"@), ("ai_will_do"@, "triggers"@)],
        event_ref_keys: Seq::<Seq<char>>::empty(),
        avail_trigger: "allow"@,
        ordered: false,
        group_nested: false,
        list_fields: Seq::empty(),
        icon_gfx: None,
        desc_suffix: false,
    }
}

pub open spec fn fam_6() -> FamilyView {
    FamilyView {
        id: "fetishist_cults"@,
        label: "Fetishist Cults"@,
        dir: "common/fetishist_cults"@,
        project_file: "common/fetishist_cults/zz_eutoolkit_fetishist_cults.txt"@,
        has_color: false,
        icon: "none"@,
        scalars: seq![("sprite"@, "int"@, Seq::<Seq<char>>::empty(), ""@)],
        modifiers: Seq::<Seq<char>>::empty(),
        self_modifier: true,
        scripts: seq![("allow"@, "triggers"@), ("effect"@, "effects"@), ("removed_effect"@, "effects"@), ("ai_will_do"@, "triggers"@)],
        event_ref_keys: Seq::<Seq<char>>::empty(),
        avail_trigger: "allow"@,
        ordered: false,
        group_nested: false,
        list_fields: Seq::empty(),
        icon_gfx: None,
        desc_suffix: false,
    }
}

pub open spec fn fam_7() -> FamilyView {
    FamilyView {
        id: "holy_orders"@,
        label: "Holy Orders"@,
        dir: "common/holy_orders"@,
        project_file: "common/holy_orders/zz_eutoolkit_holy_orders.txt"@,
        has_color: true,
        icon: "sprite"@,
        scalars: seq![("cost"@, "int"@, Seq::<Seq<char>>::empty(), ""@), ("cost_type"@, "enum"@, seq!["adm_power"@, "dip_power"@, "mil_power"@], ""@), ("localization"@, "str"@, Seq::<Seq<char>>::empty(), ""@)],
        modifiers: seq!["modifier"@],
        self_modifier: false,
        scripts: seq![("trigger"@, "triggers"@), ("per_province_effect"@, "effects"@), ("per_province_abandon_effect"@, "effects"@), ("ai_priority"@, "triggers"@)],
        event_ref_keys: Seq::<Seq<char>>::empty(),
        avail_trigger: "trigger"@,
        ordered: false,
        group_nested: false,
        list_fields: Seq::empty(),
        icon_gfx: None,
        desc_suffix: false,
    }
}

pub open spec fn fam_8() -> FamilyView {
    FamilyView {
        id: "fervor"@,
        label: "Fervor Aspects"@,
        dir: "common/fervor"@,
        project_file: "common/fervor/zz_eutoolkit_fervor.txt"@,
        has_color: false,
        icon: "none"@,
        scalars: seq![("cost"@, "int"@, Seq::<Seq<char>>::empty(), ""@)],
        modifiers: Seq::<Seq<char>>::empty(),
        self_modifier: false,
        scripts: seq![("potential"@, "triggers"@), ("trigger"@, "triggers"@), ("effect"@, "effects"@), ("ai_will_do"@, "triggers"@)],
        event_ref_keys: Seq::<Seq<char>>::empty(),
        avail_trigger: "potential"@,
        ordered: false,
        group_nested: false,
        list_fields: Seq::empty(),
        icon_gfx: None,
        desc_suffix: false,
    }
}

pub open spec fn fam_9() -> FamilyView {
    FamilyView {
        id: "isolationism"@,
        label: "Isolationism Tiers"@,
        dir: "common/isolationism"@,
        project_file: "common/isolationism/zz_eutoolkit_isolationism.txt"@,
        has_color: false,
        icon: "none"@,
        scalars: seq![("isolation_value"@, "int"@, Seq::<Seq<char>>::empty(), ""@)],
        modifiers: seq!["modifier"@],
        self_modifier: false,
        scripts: Seq::empty(),
        event_ref_keys: Seq::<Seq<char>>::empty(),
        avail_trigger: ""@,
        ordered: false,
        group_nested: false,
        list_fields: Seq::empty(),
        icon_gfx: None,
        desc_suffix: false,
    }
}

pub open spec fn fam_10() -> FamilyView {
    FamilyView {
        id: "golden_bulls"@,
        label: "Golden Bulls"@,
        dir: "common/golden_bulls"@,
        project_file: "common/golden_bulls/zz_eutoolkit_golden_bulls.txt"@,
        has_color: false,
        icon: "none"@,
        scalars: Seq::empty(),
        modifiers: seq!["modifier"@],
        self_modifier: false,
        scripts: seq![("potential"@, "triggers"@), ("trigger"@, "triggers"@), ("ai_will_do"@, "triggers"@)],
        event_ref_keys: Seq::<Seq<char>>::empty(),
        avail_trigger: "trigger"@,
        ordered: false,
        group_nested: false,
        list_fields: Seq::empty(),
        icon_gfx: None,
        desc_suffix: false,
    }
}

pub open spec fn fam_11() -> FamilyView {
    FamilyView {
        id: "religious_reforms"@,
        label: "Religious Reforms"@,
        dir: "common/religious_reforms"@,
        project_file: "common/religious_reforms/zz_eutoolkit_religious_reforms.txt"@,
        has_color: false,
        icon: "none"@,
        scalars: Seq::empty(),
        modifiers: Seq::<Seq<char>>::empty(),
        self_modifier: false,
        scripts: seq![("trigger"@, "triggers"@), ("can_buy_idea"@, "triggers"@), ("ai_will_do"@, "triggers"@)],
        event_ref_keys: Seq::<Seq<char>>::empty(),
        avail_trigger: "trigger"@,
        ordered: true,
        group_nested: false,
        list_fields: Seq::empty(),
        icon_gfx: None,
        desc_suffix: false,
    }
}

pub open spec fn fam_12() -> FamilyView {
    FamilyView {
        id: "incidents"@,
        label: "Incidents (Shinto)"@,
        dir: "common/incidents"@,
        project_file: "common/incidents/zz_eutoolkit_incidents.txt"@,
        has_color: false,
        icon: "none"@,
        scalars: seq![("frame"@, "int"@, Seq::<Seq<char>>::empty(), ""@), ("variable_initial"@, "int"@, Seq::<Seq<char>>::empty(), ""@)],
        modifiers: Seq::<Seq<char>>::empty(),
        self_modifier: false,
        scripts: seq![("potential"@, "triggers"@), ("trigger"@, "triggers"@), ("mean_time_to_happen"@, "triggers"@), ("immediate_effect"@, "effects"@)],
        event_ref_keys: Seq::<Seq<char>>::empty(),
        avail_trigger: "potential"@,
        ordered: false,
        group_nested: false,
        list_fields: Seq::empty(),
        icon_gfx: None,
        desc_suffix: false,
    }
}

pub open spec fn fam_13() -> FamilyView {
    FamilyView {
        id: "religious_schools"@,
        label: "Religious Schools"@,
        dir: "common/religions"@,
        project_file: "common/religions/00_religion.txt"@,
        has_color: false,
        icon: "none"@,
        scalars: seq![("picture"@, "str"@, Seq::<Seq<char>>::empty(), ""@), ("invite_scholar_modifier_display"@, "str"@, Seq::<Seq<char>>::empty(), ""@)],
        modifiers: Seq::<Seq<char>>::empty(),
        self_modifier: true,
        scripts: seq![("potential_invite_scholar"@, "triggers"@), ("can_invite_scholar"@, "triggers"@), ("on_invite_scholar"@, "effects"@)],
        event_ref_keys: Seq::<Seq<char>>::empty(),
        avail_trigger: ""@,
        ordered: false,
        group_nested: true,
        list_fields: Seq::empty(),
        icon_gfx: None,
        desc_suffix: false,
    }
}

pub open spec fn fam_14() -> FamilyView {
    FamilyView {
        id: "government_reforms"@,
        label: "Government Reforms"@,
        dir: "common/government_reforms"@,
        project_file: "common/government_reforms/zz_eutoolkit_government_reforms.txt"@,
        has_color: false,
        icon: "named"@,
        scalars: seq![("nation_designer_cost"@, "int"@, Seq::<Seq<char>>::empty(), ""@), ("fixed_rank"@, "int"@, Seq::<Seq<char>>::empty(), ""@), ("duration"@, "int"@, Seq::<Seq<char>>::empty(), ""@), ("allow_normal_conversion"@, "bool"@, Seq::<Seq<char>>::empty(), ""@), ("legacy_government"@, "bool"@, Seq::<Seq<char>>::empty(), ""@), ("valid_for_new_country"@, "bool"@, Seq::<Seq<char>>::empty(), ""@), ("valid_for_nation_designer"@, "bool"@, Seq::<Seq<char>>::empty(), ""@), ("lock_level_when_selected"@, "bool"@, Seq::<Seq<char>>::empty(), ""@), ("monarchy"@, "bool"@, Seq::<Seq<char>>::empty(), ""@), ("republic"@, "bool"@, Seq::<Seq<char>>::empty(), ""@), ("theocracy"@, "bool"@, Seq::<Seq<char>>::empty(), ""@), ("tribal"@, "bool"@, Seq::<Seq<char>>::empty(), ""@), ("has_parliament"@, "bool"@, Seq::<Seq<char>>::empty(), ""@), ("royal_marriage"@, "bool"@, Seq::<Seq<char>>::empty(), ""@)],
        modifiers: seq!["modifiers"@, "custom_attributes"@],
        self_modifier: false,
        scripts: seq![("potential"@, "triggers"@), ("trigger"@, "triggers"@), ("nation_designer_trigger"@, "triggers"@), ("effect"@, "effects"@), ("removed_effect"@, "effects"@), ("ai"@, "triggers"@)],
        event_ref_keys: Seq::<Seq<char>>::empty(),
        avail_trigger: "trigger"@,
        ordered: false,
        group_nested: false,
        list_fields: Seq::empty(),
        icon_gfx: None,
        desc_suffix: true,
    }
}

pub open spec fn fam_15() -> FamilyView {
    FamilyView {
        id: "buildings"@,
        label: "Buildings"@,
        dir: "common/buildings"@,
        project_file: "common/buildings/zz_eutoolkit_buildings.txt"@,
        has_color: false,
        icon: "none"@,
        scalars: seq![("cost"@, "int"@, Seq::<Seq<char>>::empty(), ""@), ("time"@, "int"@, Seq::<Seq<char>>::empty(), ""@), ("make_obsolete"@, "token"@, Seq::<Seq<char>>::empty(), "building"@), ("onmap"@, "bool"@, Seq::<Seq<char>>::empty(), ""@), ("influencing_fort"@, "bool"@, Seq::<Seq<char>>::empty(), ""@), ("one_per_country"@, "bool"@, Seq::<Seq<char>>::empty(), ""@), ("show_separate"@, "bool"@, Seq::<Seq<char>>::empty(), ""@), ("allow_in_gold_provinces"@, "bool"@, Seq::<Seq<char>>::empty(), ""@)],
        modifiers: seq!["modifier"@],
        self_modifier: false,
        scripts: seq![("build_trigger"@, "triggers"@), ("keep_trigger"@, "triggers"@), ("potential"@, "triggers"@), ("on_built"@, "effects"@), ("on_destroyed"@, "effects"@), ("on_obsolete"@, "effects"@), ("ai_will_do"@, "triggers"@)],
        event_ref_keys: Seq::<Seq<char>>::empty(),
        avail_trigger: ""@,
        ordered: false,
        group_nested: false,
        list_fields: seq![("manufactory"@, "trade_good"@)],
        icon_gfx: Some(("interface/zz_eutoolkit_buildings.gfx"@, "GFX_"@, "gfx//interface//buildings//building_default.tga"@)),
        desc_suffix: true,
    }
}

pub open spec fn fam_16() -> FamilyView {
    FamilyView {
        id: "institutions"@,
        label: "Institutions"@,
        dir: "common/institutions"@,
        project_file: "common/institutions/zz_eutoolkit_institutions.txt"@,
        has_color: false,
        icon: "none"@,
        scalars: seq![("trade_company_efficiency"@, "num"@, Seq::<Seq<char>>::empty(), ""@), ("historical_start_date"@, "token"@, Seq::<Seq<char>>::empty(), ""@), ("historical_start_province"@, "int"@, Seq::<Seq<char>>::empty(), "province"@), ("start_chance"@, "int"@, Seq::<Seq<char>>::empty(), ""@), ("on_start"@, "token"@, Seq::<Seq<char>>::empty(), ""@)],
        modifiers: seq!["bonus"@],
        self_modifier: false,
        scripts: seq![("history"@, "triggers"@), ("can_start"@, "triggers"@), ("can_embrace"@, "triggers"@), ("embracement_speed"@, "triggers"@), ("ai_will_do"@, "triggers"@)],
        event_ref_keys: seq!["on_start"@],
        avail_trigger: ""@,
        ordered: false,
        group_nested: false,
        list_fields: Seq::empty(),
        icon_gfx: Some(("interface/zz_eutoolkit_institutions.gfx"@, "GFX_icon_institution_"@, "gfx//interface//institutions//feudalism.dds"@)),
        desc_suffix: true,
    }
}

pub open spec fn fam_17() -> FamilyView {
    FamilyView {
        id: "governments"@,
        label: "Governments"@,
        dir: "common/governments"@,
        project_file: "common/governments/zz_eutoolkit_governments.txt"@,
        has_color: true,
        icon: "none"@,
        scalars: seq![("basic_reform"@, "token"@, Seq::<Seq<char>>::empty(), ""@)],
        modifiers: Seq::<Seq<char>>::empty(),
        self_modifier: false,
        scripts: Seq::empty(),
        event_ref_keys: Seq::<Seq<char>>::empty(),
        avail_trigger: ""@,
        ordered: false,
        group_nested: false,
        list_fields: seq![("legacy_government"@, ""@)],
        icon_gfx: None,
        desc_suffix: false,
    }
}

pub open spec fn fam_18() -> FamilyView {
    FamilyView {
        id: "subject_types"@,
        label: "Subject Types"@,
        dir: "common/subject_types"@,
        project_file: "common/subject_types/zz_eutoolkit_subject_types.txt"@,
        has_color: false,
        icon: "none"@,
        scalars: seq![("copy_from"@, "token"@, Seq::<Seq<char>>::empty(), "subject_type"@), ("relative_power_class"@, "int"@, Seq::<Seq<char>>::empty(), ""@), ("diplomacy_view_class"@, "int"@, Seq::<Seq<char>>::empty(), ""@), ("base_liberty_desire"@, "int"@, Seq::<Seq<char>>::empty(), ""@)],
        modifiers: seq!["modifier_subject"@, "modifier_overlord"@],
        self_modifier: true,
        scripts: seq![("is_potential_overlord"@, "triggers"@)],
        event_ref_keys: Seq::<Seq<char>>::empty(),
        avail_trigger: ""@,
        ordered: false,
        group_nested: false,
        list_fields: Seq::empty(),
        icon_gfx: None,
        desc_suffix: false,
    }
}

pub open spec fn fam_19() -> FamilyView {
    FamilyView {
        id: "subject_type_upgrades"@,
        label: "Subject Type Upgrades"@,
        dir: "common/subject_type_upgrades"@,
        project_file: "common/subject_type_upgrades/zz_eutoolkit_subject_type_upgrades.txt"@,
        has_color: false,
        icon: "none"@,
        scalars: seq![("cost"@, "int"@, Seq::<Seq<char>>::empty(), ""@)],
        modifiers: seq!["modifier_overlord"@, "modifier_subject"@],
        self_modifier: false,
        scripts: seq![("can_upgrade_trigger"@, "triggers"@), ("effect"@, "effects"@), ("removed_effect"@, "effects"@)],
        event_ref_keys: Seq::<Seq<char>>::empty(),
        avail_trigger: "can_upgrade_trigger"@,
        ordered: false,
        group_nested: false,
        list_fields: Seq::empty(),
        icon_gfx: None,
        desc_suffix: false,
    }
}

pub open spec fn fam_20() -> FamilyView {
    FamilyView {
        id: "cb_types"@,
        label: "Casus Belli Types"@,
        dir: "common/cb_types"@,
        project_file: "common/cb_types/zz_eutoolkit_cb_types.txt"@,
        has_color: false,
        icon: "none"@,
        scalars: seq![("war_goal"@, "token"@, Seq::<Seq<char>>::empty(), "wargoal_type"@), ("months"@, "int"@, Seq::<Seq<char>>::empty(), ""@), ("is_triggered_only"@, "bool"@, Seq::<Seq<char>>::empty(), ""@), ("valid_for_subject"@, "bool"@, Seq::<Seq<char>>::empty(), ""@), ("no_opinion_hit"@, "bool"@, Seq::<Seq<char>>::empty(), ""@)],
        modifiers: Seq::<Seq<char>>::empty(),
        self_modifier: false,
        scripts: seq![("prerequisites"@, "triggers"@), ("prerequisites_self"@, "triggers"@)],
        event_ref_keys: Seq::<Seq<char>>::empty(),
        avail_trigger: "prerequisites"@,
        ordered: false,
        group_nested: false,
        list_fields: seq![("attacker_disabled_po"@, ""@)],
        icon_gfx: None,
        desc_suffix: false,
    }
}

pub open spec fn fam_21() -> FamilyView {
    FamilyView {
        id: "wargoal_types"@,
        label: "War Goal Types"@,
        dir: "common/wargoal_types"@,
        project_file: "common/wargoal_types/zz_eutoolkit_wargoal_types.txt"@,
        has_color: false,
        icon: "none"@,
        scalars: seq![("type"@, "enum"@, seq!["superiority"@, "take_capital"@, "take_province"@, "take_core"@, "take_border"@, "take_colony"@, "defend_capital"@, "defend_country"@, "naval_superiority"@, "take_region"@, "blockade_ports"@], ""@), ("war_name"@, "token"@, Seq::<Seq<char>>::empty(), ""@), ("prov_desc"@, "token"@, Seq::<Seq<char>>::empty(), ""@), ("country_desc"@, "token"@, Seq::<Seq<char>>::empty(), ""@), ("elector_relation"@, "str"@, Seq::<Seq<char>>::empty(), ""@), ("transfer_trade_cost_factor"@, "num"@, Seq::<Seq<char>>::empty(), ""@), ("allow_annex"@, "bool"@, Seq::<Seq<char>>::empty(), ""@), ("deny_annex"@, "bool"@, Seq::<Seq<char>>::empty(), ""@), ("allowed_provinces_are_eligible"@, "bool"@, Seq::<Seq<char>>::empty(), ""@), ("required_treaty_to_take_provinces"@, "token"@, Seq::<Seq<char>>::empty(), "peace_treaty"@)],
        modifiers: seq!["attacker"@, "defender"@],
        self_modifier: false,
        scripts: seq![("allowed_provinces"@, "triggers"@)],
        event_ref_keys: Seq::<Seq<char>>::empty(),
        avail_trigger: ""@,
        ordered: false,
        group_nested: false,
        list_fields: Seq::empty(),
        icon_gfx: None,
        desc_suffix: false,
    }
}

pub open spec fn fam_22() -> FamilyView {
    FamilyView {
        id: "peace_treaties"@,
        label: "Peace Treaties"@,
        dir: "common/peace_treaties"@,
        project_file: "common/peace_treaties/zz_eutoolkit_peace_treaties.txt"@,
        has_color: false,
        icon: "none"@,
        scalars: seq![("category"@, "int"@, Seq::<Seq<char>>::empty(), ""@), ("power_projection"@, "token"@, Seq::<Seq<char>>::empty(), ""@), ("power_cost_base"@, "num"@, Seq::<Seq<char>>::empty(), ""@), ("prestige_base"@, "num"@, Seq::<Seq<char>>::empty(), ""@), ("ae_base"@, "num"@, Seq::<Seq<char>>::empty(), ""@), ("warscore_cap"@, "int"@, Seq::<Seq<char>>::empty(), ""@), ("requires_demand_independence"@, "bool"@, Seq::<Seq<char>>::empty(), ""@), ("is_make_subject"@, "bool"@, Seq::<Seq<char>>::empty(), ""@), ("requires_is_allowed"@, "bool"@, Seq::<Seq<char>>::empty(), ""@), ("applies_to_war_target"@, "bool"@, Seq::<Seq<char>>::empty(), ""@)],
        modifiers: seq!["warscore_cost"@],
        self_modifier: false,
        scripts: seq![("is_visible"@, "triggers"@), ("is_allowed"@, "triggers"@), ("effect"@, "effects"@), ("ai_weight"@, "effects"@)],
        event_ref_keys: Seq::<Seq<char>>::empty(),
        avail_trigger: "is_allowed"@,
        ordered: false,
        group_nested: false,
        list_fields: Seq::empty(),
        icon_gfx: None,
        desc_suffix: true,
    }
}

pub open spec fn fam_23() -> FamilyView {
    FamilyView {
        id: "policies"@,
        label: "Policies"@,
        dir: "common/policies"@,
        project_file: "common/policies/zz_eutoolkit_policies.txt"@,
        has_color: false,
        icon: "none"@,
        scalars: seq![("monarch_power"@, "enum"@, seq!["ADM"@, "DIP"@, "MIL"@], ""@)],
        modifiers: Seq::<Seq<char>>::empty(),
        self_modifier: true,
        scripts: seq![("potential"@, "triggers"@), ("allow"@, "triggers"@), ("effect"@, "effects"@), ("removed_effect"@, "effects"@), ("ai_will_do"@, "triggers"@)],
        event_ref_keys: Seq::<Seq<char>>::empty(),
        avail_trigger: "allow"@,
        ordered: false,
        group_nested: false,
        list_fields: Seq::empty(),
        icon_gfx: None,
        desc_suffix: false,
    }
}

pub open spec fn fam_24() -> FamilyView {
    FamilyView {
        id: "powerprojection"@,
        label: "Power Projection"@,
        dir: "common/powerprojection"@,
        project_file: "common/powerprojection/zz_eutoolkit_powerprojection.txt"@,
        has_color: false,
        icon: "none"@,
        scalars: seq![("power"@, "int"@, Seq::<Seq<char>>::empty(), ""@), ("max"@, "int"@, Seq::<Seq<char>>::empty(), ""@), ("min"@, "int"@, Seq::<Seq<char>>::empty(), ""@), ("decay"@, "num"@, Seq::<Seq<char>>::empty(), ""@), ("yearly_decay"@, "num"@, Seq::<Seq<char>>::empty(), ""@)],
        modifiers: Seq::<Seq<char>>::empty(),
        self_modifier: false,
        scripts: Seq::empty(),
        event_ref_keys: Seq::<Seq<char>>::empty(),
        avail_trigger: ""@,
        ordered: false,
        group_nested: false,
        list_fields: Seq::empty(),
        icon_gfx: None,
        desc_suffix: false,
    }
}

pub open spec fn fam_25() -> FamilyView {
    FamilyView {
        id: "idea_groups"@,
        label: "Idea Groups (generic)"@,
        dir: "common/ideas"@,
        project_file: "common/ideas/zz_eutoolkit_idea_groups.txt"@,
        has_color: false,
        icon: "none"@,
        scalars: seq![("category"@, "enum"@, seq!["ADM"@, "DIP"@, "MIL"@], ""@), ("free"@, "bool"@, Seq::<Seq<char>>::empty(), ""@)],
        modifiers: seq!["start"@, "bonus"@],
        self_modifier: false,
        scripts: seq![("trigger"@, "triggers"@), ("ai_will_do"@, "triggers"@)],
        event_ref_keys: Seq::<Seq<char>>::empty(),
        avail_trigger: "trigger"@,
        ordered: true,
        group_nested: false,
        list_fields: Seq::empty(),
        icon_gfx: None,
        desc_suffix: true,
    }
}

pub open spec fn fam_26() -> FamilyView {
    FamilyView {
        id: "advisortypes"@,
        label: "Advisor Types"@,
        dir: "common/advisortypes"@,
        project_file: "common/advisortypes/zz_eutoolkit_advisortypes.txt"@,
        has_color: false,
        icon: "none"@,
        scalars: seq![("monarch_power"@, "enum"@, seq!["ADM"@, "DIP"@, "MIL"@], ""@), ("allow_only_male"@, "bool"@, Seq::<Seq<char>>::empty(), ""@), ("allow_only_female"@, "bool"@, Seq::<Seq<char>>::empty(), ""@)],
        modifiers: Seq::<Seq<char>>::empty(),
        self_modifier: true,
        scripts: seq![("ai_will_do"@, "triggers"@)],
        event_ref_keys: Seq::<Seq<char>>::empty(),
        avail_trigger: ""@,
        ordered: false,
        group_nested: false,
        list_fields: Seq::empty(),
        icon_gfx: None,
        desc_suffix: false,
    }
}

pub open spec fn fam_27() -> FamilyView {
    FamilyView {
        id: "ruler_personalities"@,
        label: "Ruler Personalities"@,
        dir: "common/ruler_personalities"@,
        project_file: "common/ruler_personalities/zz_eutoolkit_ruler_personalities.txt"@,
        has_color: false,
        icon: "none"@,
        scalars: seq![("nation_designer_cost"@, "int"@, Seq::<Seq<char>>::empty(), ""@)],
        modifiers: Seq::<Seq<char>>::empty(),
        self_modifier: true,
        scripts: seq![("ruler_allow"@, "triggers"@), ("heir_allow"@, "triggers"@), ("consort_allow"@, "triggers"@), ("chance"@, "triggers"@)],
        event_ref_keys: Seq::<Seq<char>>::empty(),
        avail_trigger: ""@,
        ordered: false,
        group_nested: false,
        list_fields: Seq::empty(),
        icon_gfx: None,
        desc_suffix: false,
    }
}

pub open spec fn fam_28() -> FamilyView {
    FamilyView {
        id: "leader_personalities"@,
        label: "Leader Personalities"@,
        dir: "common/leader_personalities"@,
        project_file: "common/leader_personalities/zz_eutoolkit_leader_personalities.txt"@,
        has_color: false,
        icon: "none"@,
        scalars: Seq::empty(),
        modifiers: Seq::<Seq<char>>::empty(),
        self_modifier: true,
        scripts: seq![("allow"@, "triggers"@)],
        event_ref_keys: Seq::<Seq<char>>::empty(),
        avail_trigger: "allow"@,
        ordered: false,
        group_nested: false,
        list_fields: Seq::empty(),
        icon_gfx: None,
        desc_suffix: false,
    }
}

pub open spec fn fam_29() -> FamilyView {
    FamilyView {
        id: "event_modifiers"@,
        label: "Event Modifiers"@,
        dir: "common/event_modifiers"@,
        project_file: "common/event_modifiers/zz_eutoolkit_event_modifiers.txt"@,
        has_color: false,
        icon: "none"@,
        scalars: Seq::empty(),
        modifiers: Seq::<Seq<char>>::empty(),
        self_modifier: true,
        scripts: Seq::empty(),
        event_ref_keys: Seq::<Seq<char>>::empty(),
        avail_trigger: ""@,
        ordered: false,
        group_nested: false,
        list_fields: Seq::empty(),
        icon_gfx: None,
        desc_suffix: false,
    }
}

pub open spec fn fam_30() -> FamilyView {
    FamilyView {
        id: "opinion_modifiers"@,
        label: "Opinion Modifiers"@,
        dir: "common/opinion_modifiers"@,
        project_file: "common/opinion_modifiers/zz_eutoolkit_opinion_modifiers.txt"@,
        has_color: false,
        icon: "none"@,
        scalars: Seq::empty(),
        modifiers: Seq::<Seq<char>>::empty(),
        self_modifier: true,
        scripts: Seq::empty(),
        event_ref_keys: Seq::<Seq<char>>::empty(),
        avail_trigger: ""@,
        ordered: false,
        group_nested: false,
        list_fields: Seq::empty(),
        icon_gfx: None,
        desc_suffix: false,
    }
}

pub open spec fn fam_31() -> FamilyView {
    FamilyView {
        id: "static_modifiers"@,
        label: "Static Modifiers"@,
        dir: "common/static_modifiers"@,
        project_file: "common/static_modifiers/zz_eutoolkit_static_modifiers.txt"@,
        has_color: false,
        icon: "none"@,
        scalars: Seq::empty(),
        modifiers: Seq::<Seq<char>>::empty(),
        self_modifier: true,
        scripts: Seq::empty(),
        event_ref_keys: Seq::<Seq<char>>::empty(),
        avail_trigger: ""@,
        ordered: false,
        group_nested: false,
        list_fields: Seq::empty(),
        icon_gfx: None,
        desc_suffix: false,
    }
}

pub open spec fn fam_32() -> FamilyView {
    FamilyView {
        id: "triggered_modifiers"@,
        label: "Triggered Modifiers"@,
        dir: "common/triggered_modifiers"@,
        project_file: "common/triggered_modifiers/zz_eutoolkit_triggered_modifiers.txt"@,
        has_color: false,
        icon: "none"@,
        scalars: Seq::empty(),
        modifiers: Seq::<Seq<char>>::empty(),
        self_modifier: true,
        scripts: seq![("potential"@, "triggers"@), ("trigger"@, "triggers"@)],
        event_ref_keys: Seq::<Seq<char>>::empty(),
        avail_trigger: "trigger"@,
        ordered: false,
        group_nested: false,
        list_fields: Seq::empty(),
        icon_gfx: None,
        desc_suffix: false,
    }
}

pub open spec fn fam_33() -> FamilyView {
    FamilyView {
        id: "ages"@,
        label: "Ages"@,
        dir: "common/ages"@,
        project_file: "common/ages/zz_eutoolkit_ages.txt"@,
        has_color: false,
        icon: "none"@,
        scalars: seq![("start"@, "int"@, Seq::<Seq<char>>::empty(), ""@), ("papacy"@, "num"@, Seq::<Seq<char>>::empty(), ""@), ("religious_conflicts"@, "bool"@, Seq::<Seq<char>>::empty(), ""@)],
        modifiers: seq!["absolutism"@],
        self_modifier: false,
        scripts: seq![("can_start"@, "triggers"@)],
        event_ref_keys: Seq::<Seq<char>>::empty(),
        avail_trigger: "can_start"@,
        ordered: false,
        group_nested: false,
        list_fields: Seq::empty(),
        icon_gfx: None,
        desc_suffix: false,
    }
}

pub open spec fn fam_34() -> FamilyView {
    FamilyView {
        id: "hegemons"@,
        label: "Hegemons"@,
        dir: "common/hegemons"@,
        project_file: "common/hegemons/zz_eutoolkit_hegemons.txt"@,
        has_color: false,
        icon: "none"@,
        scalars: Seq::empty(),
        modifiers: seq!["base"@, "scale"@, "max"@],
        self_modifier: false,
        scripts: seq![("allow"@, "triggers"@), ("effect"@, "effects"@), ("removed_effect"@, "effects"@)],
        event_ref_keys: Seq::<Seq<char>>::empty(),
        avail_trigger: "allow"@,
        ordered: false,
        group_nested: false,
        list_fields: Seq::empty(),
        icon_gfx: None,
        desc_suffix: false,
    }
}

pub open spec fn fam_35() -> FamilyView {
    FamilyView {
        id: "government_ranks"@,
        label: "Government Ranks"@,
        dir: "common/government_ranks"@,
        project_file: "common/government_ranks/zz_eutoolkit_government_ranks.txt"@,
        has_color: false,
        icon: "none"@,
        scalars: Seq::empty(),
        modifiers: Seq::<Seq<char>>::empty(),
        self_modifier: true,
        scripts: Seq::empty(),
        event_ref_keys: Seq::<Seq<char>>::empty(),
        avail_trigger: ""@,
        ordered: false,
        group_nested: false,
        list_fields: Seq::empty(),
        icon_gfx: None,
        desc_suffix: false,
    }
}

pub open spec fn fam_36() -> FamilyView {
    FamilyView {
        id: "state_edicts"@,
        label: "State Edicts"@,
        dir: "common/state_edicts"@,
        project_file: "common/state_edicts/zz_eutoolkit_state_edicts.txt"@,
        has_color: true,
        icon: "none"@,
        scalars: Seq::empty(),
        modifiers: seq!["modifier"@],
        self_modifier: false,
        scripts: seq![("potential"@, "triggers"@), ("allow"@, "triggers"@), ("ai_will_do"@, "triggers"@)],
        event_ref_keys: Seq::<Seq<char>>::empty(),
        avail_trigger: "allow"@,
        ordered: false,
        group_nested: false,
        list_fields: Seq::empty(),
        icon_gfx: None,
        desc_suffix: false,
    }
}

pub open spec fn fam_37() -> FamilyView {
    FamilyView {
        id: "natives"@,
        label: "Natives"@,
        dir: "common/natives"@,
        project_file: "common/natives/zz_eutoolkit_natives.txt"@,
        has_color: true,
        icon: "none"@,
        scalars: seq![("graphical_culture"@, "token"@, Seq::<Seq<char>>::empty(), ""@), ("unit"@, "token"@, Seq::<Seq<char>>::empty(), ""@), ("icon"@, "int"@, Seq::<Seq<char>>::empty(), ""@)],
        modifiers: Seq::<Seq<char>>::empty(),
        self_modifier: false,
        scripts: Seq::empty(),
        event_ref_keys: Seq::<Seq<char>>::empty(),
        avail_trigger: ""@,
        ordered: false,
        group_nested: false,
        list_fields: seq![("provinces"@, "province"@)],
        icon_gfx: None,
        desc_suffix: false,
    }
}

pub open spec fn fam_38() -> FamilyView {
    FamilyView {
        id: "trading_policies"@,
        label: "Trading Policies"@,
        dir: "common/trading_policies"@,
        project_file: "common/trading_policies/zz_eutoolkit_trading_policies.txt"@,
        has_color: false,
        icon: "none"@,
        scalars: seq![("button_gfx"@, "token"@, Seq::<Seq<char>>::empty(), ""@), ("center_of_reformation"@, "bool"@, Seq::<Seq<char>>::empty(), ""@), ("cooldown"@, "bool"@, Seq::<Seq<char>>::empty(), ""@), ("unique"@, "bool"@, Seq::<Seq<char>>::empty(), ""@), ("show_alert"@, "bool"@, Seq::<Seq<char>>::empty(), ""@)],
        modifiers: seq!["trade_power"@, "node_province_modifier"@, "countries_with_merchant_modifier"@],
        self_modifier: false,
        scripts: seq![("potential"@, "triggers"@), ("can_select"@, "triggers"@), ("can_maintain"@, "triggers"@)],
        event_ref_keys: Seq::<Seq<char>>::empty(),
        avail_trigger: "can_select"@,
        ordered: false,
        group_nested: false,
        list_fields: Seq::empty(),
        icon_gfx: None,
        desc_suffix: false,
    }
}

pub open spec fn fam_39() -> FamilyView {
    FamilyView {
        id: "tradecompany_investments"@,
        label: "Trade Company Investments"@,
        dir: "common/tradecompany_investments"@,
        project_file: "common/tradecompany_investments/zz_eutoolkit_tradecompany_investments.txt"@,
        has_color: false,
        icon: "none"@,
        scalars: seq![("category"@, "token"@, Seq::<Seq<char>>::empty(), ""@), ("cost"@, "num"@, Seq::<Seq<char>>::empty(), ""@), ("upgrades_to"@, "token"@, Seq::<Seq<char>>::empty(), ""@), ("sprite"@, "str"@, Seq::<Seq<char>>::empty(), ""@)],
        modifiers: seq!["company_province_area_modifier"@, "area_modifier"@, "company_region_modifier"@, "owner_modifier"@, "owner_company_region_modifier"@],
        self_modifier: false,
        scripts: seq![("allow"@, "triggers"@), ("ai_global_worth"@, "triggers"@), ("ai_area_worth"@, "triggers"@), ("ai_region_worth"@, "triggers"@)],
        event_ref_keys: Seq::<Seq<char>>::empty(),
        avail_trigger: "allow"@,
        ordered: false,
        group_nested: false,
        list_fields: Seq::empty(),
        icon_gfx: None,
        desc_suffix: false,
    }
}

pub open spec fn fam_40() -> FamilyView {
    FamilyView {
        id: "centers_of_trade"@,
        label: "Centers of Trade"@,
        dir: "common/centers_of_trade"@,
        project_file: "common/centers_of_trade/zz_eutoolkit_centers_of_trade.txt"@,
        has_color: false,
        icon: "none"@,
        scalars: seq![("level"@, "int"@, Seq::<Seq<char>>::empty(), ""@), ("development"@, "int"@, Seq::<Seq<char>>::empty(), ""@), ("cost"@, "int"@, Seq::<Seq<char>>::empty(), ""@), ("type"@, "enum"@, seq!["inland"@, "coastal"@], ""@)],
        modifiers: seq!["province_modifiers"@, "state_modifiers"@, "global_modifiers"@],
        self_modifier: false,
        scripts: Seq::empty(),
        event_ref_keys: Seq::<Seq<char>>::empty(),
        avail_trigger: ""@,
        ordered: false,
        group_nested: false,
        list_fields: Seq::empty(),
        icon_gfx: None,
        desc_suffix: false,
    }
}

pub open spec fn fam_41() -> FamilyView {
    FamilyView {
        id: "naval_doctrines"@,
        label: "Naval Doctrines"@,
        dir: "common/naval_doctrines"@,
        project_file: "common/naval_doctrines/zz_eutoolkit_naval_doctrines.txt"@,
        has_color: false,
        icon: "none"@,
        scalars: seq![("cost"@, "num"@, Seq::<Seq<char>>::empty(), ""@), ("button_gfx"@, "int"@, Seq::<Seq<char>>::empty(), ""@)],
        modifiers: seq!["country_modifier"@],
        self_modifier: false,
        scripts: seq![("can_select"@, "triggers"@), ("effect"@, "effects"@), ("removed_effect"@, "effects"@)],
        event_ref_keys: Seq::<Seq<char>>::empty(),
        avail_trigger: "can_select"@,
        ordered: false,
        group_nested: false,
        list_fields: Seq::empty(),
        icon_gfx: None,
        desc_suffix: false,
    }
}

pub open spec fn fam_42() -> FamilyView {
    FamilyView {
        id: "professionalism"@,
        label: "Army Professionalism"@,
        dir: "common/professionalism"@,
        project_file: "common/professionalism/zz_eutoolkit_professionalism.txt"@,
        has_color: false,
        icon: "none"@,
        scalars: seq![("army_professionalism"@, "num"@, Seq::<Seq<char>>::empty(), ""@), ("hidden"@, "bool"@, Seq::<Seq<char>>::empty(), ""@), ("marker_sprite"@, "token"@, Seq::<Seq<char>>::empty(), ""@), ("unit_sprite_start"@, "str"@, Seq::<Seq<char>>::empty(), ""@)],
        modifiers: Seq::<Seq<char>>::empty(),
        self_modifier: true,
        scripts: seq![("trigger"@, "triggers"@)],
        event_ref_keys: Seq::<Seq<char>>::empty(),
        avail_trigger: "trigger"@,
        ordered: false,
        group_nested: false,
        list_fields: Seq::empty(),
        icon_gfx: None,
        desc_suffix: false,
    }
}

pub open spec fn fam_43() -> FamilyView {
    FamilyView {
        id: "flagship_modifications"@,
        label: "Flagship Modifications"@,
        dir: "common/flagship_modifications"@,
        project_file: "common/flagship_modifications/zz_eutoolkit_flagship_modifications.txt"@,
        has_color: false,
        icon: "none"@,
        scalars: seq![("base_modification"@, "bool"@, Seq::<Seq<char>>::empty(), ""@)],
        modifiers: seq!["modifier"@],
        self_modifier: false,
        scripts: seq![("trigger"@, "triggers"@), ("ai_trade_score"@, "triggers"@), ("ai_war_score"@, "triggers"@)],
        event_ref_keys: Seq::<Seq<char>>::empty(),
        avail_trigger: "trigger"@,
        ordered: false,
        group_nested: false,
        list_fields: Seq::empty(),
        icon_gfx: None,
        desc_suffix: false,
    }
}

pub open spec fn fam_44() -> FamilyView {
    FamilyView {
        id: "custom_ideas"@,
        label: "Custom Ideas (Designer)"@,
        dir: "common/custom_ideas"@,
        project_file: "common/custom_ideas/zz_eutoolkit_custom_ideas.txt"@,
        has_color: false,
        icon: "none"@,
        scalars: seq![("category"@, "enum"@, seq!["ADM"@, "DIP"@, "MIL"@], ""@)],
        modifiers: Seq::<Seq<char>>::empty(),
        self_modifier: false,
        scripts: Seq::empty(),
        event_ref_keys: Seq::<Seq<char>>::empty(),
        avail_trigger: ""@,
        ordered: true,
        group_nested: false,
        list_fields: Seq::empty(),
        icon_gfx: None,
        desc_suffix: false,
    }
}

pub open spec fn fam_45() -> FamilyView {
    FamilyView {
        id: "ai_personalities"@,
        label: "AI Personalities"@,
        dir: "common/ai_personalities"@,
        project_file: "common/ai_personalities/zz_eutoolkit_ai_personalities.txt"@,
        has_color: false,
        icon: "none"@,
        scalars: seq![("icon"@, "int"@, Seq::<Seq<char>>::empty(), ""@)],
        modifiers: Seq::<Seq<char>>::empty(),
        self_modifier: false,
        scripts: seq![("chance"@, "triggers"@)],
        event_ref_keys: Seq::<Seq<char>>::empty(),
        avail_trigger: ""@,
        ordered: false,
        group_nested: false,
        list_fields: Seq::empty(),
        icon_gfx: None,
        desc_suffix: false,
    }
}

pub open spec fn fam_46() -> FamilyView {
    FamilyView {
        id: "insults"@,
        label: "Insults"@,
        dir: "common/insults"@,
        project_file: "common/insults/zz_eutoolkit_insults.txt"@,
        has_color: false,
        icon: "none"@,
        scalars: Seq::empty(),
        modifiers: Seq::<Seq<char>>::empty(),
        self_modifier: false,
        scripts: seq![("trigger"@, "triggers"@)],
        event_ref_keys: Seq::<Seq<char>>::empty(),
        avail_trigger: "trigger"@,
        ordered: false,
        group_nested: false,
        list_fields: Seq::empty(),
        icon_gfx: None,
        desc_suffix: false,
    }
}

pub open spec fn fam_47() -> FamilyView {
    FamilyView {
        id: "imperial_reforms"@,
        label: "Imperial Reforms"@,
        dir: "common/imperial_reforms"@,
        project_file: "common/imperial_reforms/zz_eutoolkit_imperial_reforms.txt"@,
        has_color: false,
        icon: "none"@,
        scalars: seq![("empire"@, "token"@, Seq::<Seq<char>>::empty(), ""@), ("required_reform"@, "token"@, Seq::<Seq<char>>::empty(), ""@), ("gui_container"@, "token"@, Seq::<Seq<char>>::empty(), ""@)],
        modifiers: seq!["emperor"@, "member"@, "elector"@, "all"@, "province"@, "emperor_per_prince"@],
        self_modifier: false,
        scripts: seq![("potential"@, "triggers"@), ("trigger"@, "triggers"@), ("on_effect"@, "effects"@), ("off_effect"@, "effects"@)],
        event_ref_keys: Seq::<Seq<char>>::empty(),
        avail_trigger: "potential"@,
        ordered: false,
        group_nested: false,
        list_fields: Seq::empty(),
        icon_gfx: None,
        desc_suffix: true,
    }
}

pub open spec fn fam_48() -> FamilyView {
    FamilyView {
        id: "imperial_incidents"@,
        label: "Imperial Incidents"@,
        dir: "common/imperial_incidents"@,
        project_file: "common/imperial_incidents/zz_eutoolkit_imperial_incidents.txt"@,
        has_color: false,
        icon: "none"@,
        scalars: seq![("event"@, "token"@, Seq::<Seq<char>>::empty(), ""@), ("default_option"@, "int"@, Seq::<Seq<char>>::empty(), ""@)],
        modifiers: Seq::<Seq<char>>::empty(),
        self_modifier: false,
        scripts: seq![("can_stop"@, "triggers"@)],
        event_ref_keys: seq!["event"@],
        avail_trigger: "can_stop"@,
        ordered: false,
        group_nested: false,
        list_fields: Seq::empty(),
        icon_gfx: None,
        desc_suffix: true,
    }
}

pub open spec fn fam_49() -> FamilyView {
    FamilyView {
        id: "decrees"@,
        label: "Decrees"@,
        dir: "common/decrees"@,
        project_file: "common/decrees/zz_eutoolkit_decrees.txt"@,
        has_color: false,
        icon: "none"@,
        scalars: seq![("cost"@, "int"@, Seq::<Seq<char>>::empty(), ""@), ("duration"@, "int"@, Seq::<Seq<char>>::empty(), ""@)],
        modifiers: seq!["modifier"@],
        self_modifier: false,
        scripts: seq![("potential"@, "triggers"@), ("trigger"@, "triggers"@), ("effect"@, "effects"@), ("removed_effect"@, "effects"@), ("ai_will_do"@, "triggers"@)],
        event_ref_keys: Seq::<Seq<char>>::empty(),
        avail_trigger: "potential"@,
        ordered: false,
        group_nested: false,
        list_fields: Seq::empty(),
        icon_gfx: None,
        desc_suffix: true,
    }
}


pub open spec fn family_table() -> Seq<FamilyView> {
    seq![fam_0(), fam_1(), fam_2(), fam_3(), fam_4(), fam_5(), fam_6(), fam_7(), fam_8(), fam_9(), fam_10(), fam_11(), fam_12(), fam_13(), fam_14(), fam_15(), fam_16(), fam_17(), fam_18(), fam_19(), fam_20(), fam_21(), fam_22(), fam_23(), fam_24(), fam_25(), fam_26(), fam_27(), fam_28(), fam_29(), fam_30(), fam_31(), fam_32(), fam_33(), fam_34(), fam_35(), fam_36(), fam_37(), fam_38(), fam_39(), fam_40(), fam_41(), fam_42(), fam_43(), fam_44(), fam_45(), fam_46(), fam_47(), fam_48(), fam_49()]
}


fn make_fam_0() -> (r: Family)
    ensures
        family_view(r) == fam_0(),
{
    let r = Family {
        id: "disasters",
        label: "Disasters",
        dir: "common/disasters",
        project_file: "common/disasters/zz_eutoolkit_disasters.txt",
        has_color: false,
        icon: "none",
        scalars: vec![ScalarSpec { key: "on_start", kind: "str", options: vec![], picker: "" }, ScalarSpec { key: "on_end", kind: "str", options: vec![], picker: "" }],
        modifiers: vec!["modifier"],
        self_modifier: false,
        scripts: vec![BlockSpec { name: "potential", registry: "triggers" }, BlockSpec { name: "can_start", registry: "triggers" }, BlockSpec { name: "can_stop", registry: "triggers" }, BlockSpec { name: "can_end", registry: "triggers" }, BlockSpec { name: "progress", registry: "triggers" }],
        event_ref_keys: vec!["on_start", "on_end"],
        avail_trigger: "can_start",
        ordered: false,
        group_nested: false,
        list_fields: vec![],
        icon_gfx: None,
        desc_suffix: false,
    };
    assert(texts(r.scalars@[0].options@) =~= Seq::<Seq<char>>::empty());
    assert(texts(r.scalars@[1].options@) =~= Seq::<Seq<char>>::empty());
    assert(scalar_specs_view(r.scalars@) =~= fam_0().scalars);
    assert(texts(r.modifiers@) =~= fam_0().modifiers);
    assert(block_specs_view(r.scripts@) =~= fam_0().scripts);
    assert(texts(r.event_ref_keys@) =~= fam_0().event_ref_keys);
    assert(list_specs_view(r.list_fields@) =~= fam_0().list_fields);
    r
}

fn make_fam_1() -> (r: Family)
    ensures
        family_view(r) == fam_1(),
{
    let r = Family {
        id: "parliament_issues",
        label: "Parliament Issues",
        dir: "common/parliament_issues",
        project_file: "common/parliament_issues/zz_eutoolkit_parliament_issues.txt",
        has_color: false,
        icon: "none",
        scalars: vec![ScalarSpec { key: "category", kind: "int", options: vec![], picker: "" }],
        modifiers: vec![],
        self_modifier: false,
        scripts: vec![BlockSpec { name: "allow", registry: "triggers" }, BlockSpec { name: "effect", registry: "effects" }, BlockSpec { name: "ai_will_do", registry: "triggers" }],
        event_ref_keys: vec![],
        avail_trigger: "allow",
        ordered: false,
        group_nested: false,
        list_fields: vec![],
        icon_gfx: None,
        desc_suffix: false,
    };
    assert(texts(r.scalars@[0].options@) =~= Seq::<Seq<char>>::empty());
    assert(scalar_specs_view(r.scalars@) =~= fam_1().scalars);
    assert(texts(r.modifiers@) =~= fam_1().modifiers);
    assert(block_specs_view(r.scripts@) =~= fam_1().scripts);
    assert(texts(r.event_ref_keys@) =~= fam_1().event_ref_keys);
    assert(list_specs_view(r.list_fields@) =~= fam_1().list_fields);
    r
}

fn make_fam_2() -> (r: Family)
    ensures
        family_view(r) == fam_2(),
{
    let r = Family {
        id: "parliament_bribes",
        label: "Parliament Bribes",
        dir: "common/parliament_bribes",
        project_file: "common/parliament_bribes/zz_eutoolkit_parliament_bribes.txt",
        has_color: false,
        icon: "none",
        scalars: vec![],
        modifiers: vec![],
        self_modifier: false,
        scripts: vec![BlockSpec { name: "trigger", registry: "triggers" }, BlockSpec { name: "effect", registry: "effects" }, BlockSpec { name: "chance", registry: "triggers" }, BlockSpec { name: "ai_will_do", registry: "triggers" }],
        event_ref_keys: vec![],
        avail_trigger: "trigger",
        ordered: false,
        group_nested: false,
        list_fields: vec![],
        icon_gfx: None,
        desc_suffix: false,
    };
    assert(scalar_specs_view(r.scalars@) =~= fam_2().scalars);
    assert(texts(r.modifiers@) =~= fam_2().modifiers);
    assert(block_specs_view(r.scripts@) =~= fam_2().scripts);
    assert(texts(r.event_ref_keys@) =~= fam_2().event_ref_keys);
    assert(list_specs_view(r.list_fields@) =~= fam_2().list_fields);
    r
}

fn make_fam_3() -> (r: Family)
    ensures
        family_view(r) == fam_3(),
{
    let r = Family {
        id: "factions",
        label: "Court Factions",
        dir: "common/factions",
        project_file: "common/factions/zz_eutoolkit_factions.txt",
        has_color: false,
        icon: "none",
        scalars: vec![ScalarSpec { key: "monarch_power", kind: "enum", options: vec!["ADM", "DIP", "MIL"], picker: "" }, ScalarSpec { key: "always", kind: "bool", options: vec![], picker: "" }],
        modifiers: vec!["modifier"],
        self_modifier: false,
        scripts: vec![],
        event_ref_keys: vec![],
        avail_trigger: "",
        ordered: false,
        group_nested: false,
        list_fields: vec![],
        icon_gfx: None,
        desc_suffix: false,
    };
    assert(texts(r.scalars@[0].options@) =~= seq!["ADM"@, "DIP"@, "MIL"@]);
    assert(texts(r.scalars@[1].options@) =~= Seq::<Seq<char>>::empty());
    assert(scalar_specs_view(r.scalars@) =~= fam_3().scalars);
    assert(texts(r.modifiers@) =~= fam_3().modifiers);
    assert(block_specs_view(r.scripts@) =~= fam_3().scripts);
    assert(texts(r.event_ref_keys@) =~= fam_3().event_ref_keys);
    assert(list_specs_view(r.list_fields@) =~= fam_3().list_fields);
    r
}

fn make_fam_4() -> (r: Family)
    ensures
        family_view(r) == fam_4(),
{
    let r = Family {
        id: "personal_deities",
        label: "Personal Deities",
        dir: "common/personal_deities",
        project_file: "common/personal_deities/zz_eutoolkit_personal_deities.txt",
        has_color: false,
        icon: "none",
        scalars: vec![ScalarSpec { key: "sprite", kind: "int", options: vec![], picker: "" }],
        modifiers: vec![],
        self_modifier: true,
        scripts: vec![BlockSpec { name: "potential", registry: "triggers" }, BlockSpec { name: "trigger", registry: "triggers" }, BlockSpec { name: "effect", registry: "effects" }, BlockSpec { name: "removed_effect", registry: "effects" }, BlockSpec { name: "ai_will_do", registry: "triggers" }],
        event_ref_keys: vec![],
        avail_trigger: "potential",
        ordered: false,
        group_nested: false,
        list_fields: vec![],
        icon_gfx: None,
        desc_suffix: false,
    };
    assert(texts(r.scalars@[0].options@) =~= Seq::<Seq<char>>::empty());
    assert(scalar_specs_view(r.scalars@) =~= fam_4().scalars);
    assert(texts(r.modifiers@) =~= fam_4().modifiers);
    assert(block_specs_view(r.scripts@) =~= fam_4().scripts);
    assert(texts(r.event_ref_keys@) =~= fam_4().event_ref_keys);
    assert(list_specs_view(r.list_fields@) =~= fam_4().list_fields);
    r
}

fn make_fam_5() -> (r: Family)
    ensures
        family_view(r) == fam_5(),
{
    let r = Family {
        id: "church_aspects",
        label: "Church Aspects",
        dir: "common/church_aspects",
        project_file: "common/church_aspects/zz_eutoolkit_church_aspects.txt",
        has_color: false,
        icon: "none",
        scalars: vec![ScalarSpec { key: "cost", kind: "int", options: vec![], picker: "" }],
        modifiers: vec!["modifier"],
        self_modifier: false,
        scripts: vec![BlockSpec { name: "effect", registry: "effects" }, BlockSpec { name: "allow", registry: "triggers" }, BlockSpec { name: "ai_will_do", registry: "triggers" }],
        event_ref_keys: vec![],
        avail_trigger: "allow",
        ordered: false,
        group_nested: false,
        list_fields: vec![],
        icon_gfx: None,
        desc_suffix: false,
    };
    assert(texts(r.scalars@[0].options@) =~= Seq::<Seq<char>>::empty());
    assert(scalar_specs_view(r.scalars@) =~= fam_5().scalars);
    assert(texts(r.modifiers@) =~= fam_5().modifiers);
    assert(block_specs_view(r.scripts@) =~= fam_5().scripts);
    assert(texts(r.event_ref_keys@) =~= fam_5().event_ref_keys);
    assert(list_specs_view(r.list_fields@) =~= fam_5().list_fields);
    r
}

fn make_fam_6() -> (r: Family)
    ensures
        family_view(r) == fam_6(),
{
    let r = Family {
        id: "fetishist_cults",
        label: "Fetishist Cults",
        dir: "common/fetishist_cults",
        project_file: "common/fetishist_cults/zz_eutoolkit_fetishist_cults.txt",
        has_color: false,
        icon: "none",
        scalars: vec![ScalarSpec { key: "sprite", kind: "int", options: vec![], picker: "" }],
        modifiers: vec![],
        self_modifier: true,
        scripts: vec![BlockSpec { name: "allow", registry: "triggers" }, BlockSpec { name: "effect", registry: "effects" }, BlockSpec { name: "removed_effect", registry: "effects" }, BlockSpec { name: "ai_will_do", registry: "triggers" }],
        event_ref_keys: vec![],
        avail_trigger: "allow",
        ordered: false,
        group_nested: false,
        list_fields: vec![],
        icon_gfx: None,
        desc_suffix: false,
    };
    assert(texts(r.scalars@[0].options@) =~= Seq::<Seq<char>>::empty());
    assert(scalar_specs_view(r.scalars@) =~= fam_6().scalars);
    assert(texts(r.modifiers@) =~= fam_6().modifiers);
    assert(block_specs_view(r.scripts@) =~= fam_6().scripts);
    assert(texts(r.event_ref_keys@) =~= fam_6().event_ref_keys);
    assert(list_specs_view(r.list_fields@) =~= fam_6().list_fields);
    r
}

fn make_fam_7() -> (r: Family)
    ensures
        family_view(r) == fam_7(),
{
    let r = Family {
        id: "holy_orders",
        label: "Holy Orders",
        dir: "common/holy_orders",
        project_file: "common/holy_orders/zz_eutoolkit_holy_orders.txt",
        has_color: true,
        icon: "sprite",
        scalars: vec![ScalarSpec { key: "cost", kind: "int", options: vec![], picker: "" }, ScalarSpec { key: "cost_type", kind: "enum", options: vec!["adm_power", "dip_power", "mil_power"], picker: "" }, ScalarSpec { key: "localization", kind: "str", options: vec![], picker: "" }],
        modifiers: vec!["modifier"],
        self_modifier: false,
        scripts: vec![BlockSpec { name: "trigger", registry: "triggers" }, BlockSpec { name: "per_province_effect", registry: "effects" }, BlockSpec { name: "per_province_abandon_effect", registry: "effects" }, BlockSpec { name: "ai_priority", registry: "triggers" }],
        event_ref_keys: vec![],
        avail_trigger: "trigger",
        ordered: false,
        group_nested: false,
        list_fields: vec![],
        icon_gfx: None,
        desc_suffix: false,
    };
    assert(texts(r.scalars@[0].options@) =~= Seq::<Seq<char>>::empty());
    assert(texts(r.scalars@[1].options@) =~= seq!["adm_power"@, "dip_power"@, "mil_power"@]);
    assert(texts(r.scalars@[2].options@) =~= Seq::<Seq<char>>::empty());
    assert(scalar_specs_view(r.scalars@) =~= fam_7().scalars);
    assert(texts(r.modifiers@) =~= fam_7().modifiers);
    assert(block_specs_view(r.scripts@) =~= fam_7().scripts);
    assert(texts(r.event_ref_keys@) =~= fam_7().event_ref_keys);
    assert(list_specs_view(r.list_fields@) =~= fam_7().list_fields);
    r
}

fn make_fam_8() -> (r: Family)
    ensures
        family_view(r) == fam_8(),
{
    let r = Family {
        id: "fervor",
        label: "Fervor Aspects",
        dir: "common/fervor",
        project_file: "common/fervor/zz_eutoolkit_fervor.txt",
        has_color: false,
        icon: "none",
        scalars: vec![ScalarSpec { key: "cost", kind: "int", options: vec![], picker: "" }],
        modifiers: vec![],
        self_modifier: false,
        scripts: vec![BlockSpec { name: "potential", registry: "triggers" }, BlockSpec { name: "trigger", registry: "triggers" }, BlockSpec { name: "effect", registry: "effects" }, BlockSpec { name: "ai_will_do", registry: "triggers" }],
        event_ref_keys: vec![],
        avail_trigger: "potential",
        ordered: false,
        group_nested: false,
        list_fields: vec![],
        icon_gfx: None,
        desc_suffix: false,
    };
    assert(texts(r.scalars@[0].options@) =~= Seq::<Seq<char>>::empty());
    assert(scalar_specs_view(r.scalars@) =~= fam_8().scalars);
    assert(texts(r.modifiers@) =~= fam_8().modifiers);
    assert(block_specs_view(r.scripts@) =~= fam_8().scripts);
    assert(texts(r.event_ref_keys@) =~= fam_8().event_ref_keys);
    assert(list_specs_view(r.list_fields@) =~= fam_8().list_fields);
    r
}

fn make_fam_9() -> (r: Family)
    ensures
        family_view(r) == fam_9(),
{
    let r = Family {
        id: "isolationism",
        label: "Isolationism Tiers",
        dir: "common/isolationism",
        project_file: "common/isolationism/zz_eutoolkit_isolationism.txt",
        has_color: false,
        icon: "none",
        scalars: vec![ScalarSpec { key: "isolation_value", kind: "int", options: vec![], picker: "" }],
        modifiers: vec!["modifier"],
        self_modifier: false,
        scripts: vec![],
        event_ref_keys: vec![],
        avail_trigger: "",
        ordered: false,
        group_nested: false,
        list_fields: vec![],
        icon_gfx: None,
        desc_suffix: false,
    };
    assert(texts(r.scalars@[0].options@) =~= Seq::<Seq<char>>::empty());
    assert(scalar_specs_view(r.scalars@) =~= fam_9().scalars);
    assert(texts(r.modifiers@) =~= fam_9().modifiers);
    assert(block_specs_view(r.scripts@) =~= fam_9().scripts);
    assert(texts(r.event_ref_keys@) =~= fam_9().event_ref_keys);
    assert(list_specs_view(r.list_fields@) =~= fam_9().list_fields);
    r
}

fn make_fam_10() -> (r: Family)
    ensures
        family_view(r) == fam_10(),
{
    let r = Family {
        id: "golden_bulls",
        label: "Golden Bulls",
        dir: "common/golden_bulls",
        project_file: "common/golden_bulls/zz_eutoolkit_golden_bulls.txt",
        has_color: false,
        icon: "none",
        scalars: vec![],
        modifiers: vec!["modifier"],
        self_modifier: false,
        scripts: vec![BlockSpec { name: "potential", registry: "triggers" }, BlockSpec { name: "trigger", registry: "triggers" }, BlockSpec { name: "ai_will_do", registry: "triggers" }],
        event_ref_keys: vec![],
        avail_trigger: "trigger",
        ordered: false,
        group_nested: false,
        list_fields: vec![],
        icon_gfx: None,
        desc_suffix: false,
    };
    assert(scalar_specs_view(r.scalars@) =~= fam_10().scalars);
    assert(texts(r.modifiers@) =~= fam_10().modifiers);
    assert(block_specs_view(r.scripts@) =~= fam_10().scripts);
    assert(texts(r.event_ref_keys@) =~= fam_10().event_ref_keys);
    assert(list_specs_view(r.list_fields@) =~= fam_10().list_fields);
    r
}

fn make_fam_11() -> (r: Family)
    ensures
        family_view(r) == fam_11(),
{
    let r = Family {
        id: "religious_reforms",
        label: "Religious Reforms",
        dir: "common/religious_reforms",
        project_file: "common/religious_reforms/zz_eutoolkit_religious_reforms.txt",
        has_color: false,
        icon: "none",
        scalars: vec![],
        modifiers: vec![],
        self_modifier: false,
        scripts: vec![BlockSpec { name: "trigger", registry: "triggers" }, BlockSpec { name: "can_buy_idea", registry: "triggers" }, BlockSpec { name: "ai_will_do", registry: "triggers" }],
        event_ref_keys: vec![],
        avail_trigger: "trigger",
        ordered: true,
        group_nested: false,
        list_fields: vec![],
        icon_gfx: None,
        desc_suffix: false,
    };
    assert(scalar_specs_view(r.scalars@) =~= fam_11().scalars);
    assert(texts(r.modifiers@) =~= fam_11().modifiers);
    assert(block_specs_view(r.scripts@) =~= fam_11().scripts);
    assert(texts(r.event_ref_keys@) =~= fam_11().event_ref_keys);
    assert(list_specs_view(r.list_fields@) =~= fam_11().list_fields);
    r
}

fn make_fam_12() -> (r: Family)
    ensures
        family_view(r) == fam_12(),
{
    let r = Family {
        id: "incidents",
        label: "Incidents (Shinto)",
        dir: "common/incidents",
        project_file: "common/incidents/zz_eutoolkit_incidents.txt",
        has_color: false,
        icon: "none",
        scalars: vec![ScalarSpec { key: "frame", kind: "int", options: vec![], picker: "" }, ScalarSpec { key: "variable_initial", kind: "int", options: vec![], picker: "" }],
        modifiers: vec![],
        self_modifier: false,
        scripts: vec![BlockSpec { name: "potential", registry: "triggers" }, BlockSpec { name: "trigger", registry: "triggers" }, BlockSpec { name: "mean_time_to_happen", registry: "triggers" }, BlockSpec { name: "immediate_effect", registry: "effects" }],
        event_ref_keys: vec![],
        avail_trigger: "potential",
        ordered: false,
        group_nested: false,
        list_fields: vec![],
        icon_gfx: None,
        desc_suffix: false,
    };
    assert(texts(r.scalars@[0].options@) =~= Seq::<Seq<char>>::empty());
    assert(texts(r.scalars@[1].options@) =~= Seq::<Seq<char>>::empty());
    assert(scalar_specs_view(r.scalars@) =~= fam_12().scalars);
    assert(texts(r.modifiers@) =~= fam_12().modifiers);
    assert(block_specs_view(r.scripts@) =~= fam_12().scripts);
    assert(texts(r.event_ref_keys@) =~= fam_12().event_ref_keys);
    assert(list_specs_view(r.list_fields@) =~= fam_12().list_fields);
    r
}

fn make_fam_13() -> (r: Family)
    ensures
        family_view(r) == fam_13(),
{
    let r = Family {
        id: "religious_schools",
        label: "Religious Schools",
        dir: "common/religions",
        project_file: "common/religions/00_religion.txt",
        has_color: false,
        icon: "none",
        scalars: vec![ScalarSpec { key: "picture", kind: "str", options: vec![], picker: "" }, ScalarSpec { key: "invite_scholar_modifier_display", kind: "str", options: vec![], picker: "" }],
        modifiers: vec![],
        self_modifier: true,
        scripts: vec![BlockSpec { name: "potential_invite_scholar", registry: "triggers" }, BlockSpec { name: "can_invite_scholar", registry: "triggers" }, BlockSpec { name: "on_invite_scholar", registry: "effects" }],
        event_ref_keys: vec![],
        avail_trigger: "",
        ordered: false,
        group_nested: true,
        list_fields: vec![],
        icon_gfx: None,
        desc_suffix: false,
    };
    assert(texts(r.scalars@[0].options@) =~= Seq::<Seq<char>>::empty());
    assert(texts(r.scalars@[1].options@) =~= Seq::<Seq<char>>::empty());
    assert(scalar_specs_view(r.scalars@) =~= fam_13().scalars);
    assert(texts(r.modifiers@) =~= fam_13().modifiers);
    assert(block_specs_view(r.scripts@) =~= fam_13().scripts);
    assert(texts(r.event_ref_keys@) =~= fam_13().event_ref_keys);
    assert(list_specs_view(r.list_fields@) =~= fam_13().list_fields);
    r
}

fn make_fam_14() -> (r: Family)
    ensures
        family_view(r) == fam_14(),
{
    let r = Family {
        id: "government_reforms",
        label: "Government Reforms",
        dir: "common/government_reforms",
        project_file: "common/government_reforms/zz_eutoolkit_government_reforms.txt",
        has_color: false,
        icon: "named",
        scalars: vec![ScalarSpec { key: "nation_designer_cost", kind: "int", options: vec![], picker: "" }, ScalarSpec { key: "fixed_rank", kind: "int", options: vec![], picker: "" }, ScalarSpec { key: "duration", kind: "int", options: vec![], picker: "" }, ScalarSpec { key: "allow_normal_conversion", kind: "bool", options: vec![], picker: "" }, ScalarSpec { key: "legacy_government", kind: "bool", options: vec![], picker: "" }, ScalarSpec { key: "valid_for_new_country", kind: "bool", options: vec![], picker: "" }, ScalarSpec { key: "valid_for_nation_designer", kind: "bool", options: vec![], picker: "" }, ScalarSpec { key: "lock_level_when_selected", kind: "bool", options: vec![], picker: "" }, ScalarSpec { key: "monarchy", kind: "bool", options: vec![], picker: "" }, ScalarSpec { key: "republic", kind: "bool", options: vec![], picker: "" }, ScalarSpec { key: "theocracy", kind: "bool", options: vec![], picker: "" }, ScalarSpec { key: "tribal", kind: "bool", options: vec![], picker: "" }, ScalarSpec { key: "has_parliament", kind: "bool", options: vec![], picker: "" }, ScalarSpec { key: "royal_marriage", kind: "bool", options: vec![], picker: "" }],
        modifiers: vec!["modifiers", "custom_attributes"],
        self_modifier: false,
        scripts: vec![BlockSpec { name: "potential", registry: "triggers" }, BlockSpec { name: "trigger", registry: "triggers" }, BlockSpec { name: "nation_designer_trigger", registry: "triggers" }, BlockSpec { name: "effect", registry: "effects" }, BlockSpec { name: "removed_effect", registry: "effects" }, BlockSpec { name: "ai", registry: "triggers" }],
        event_ref_keys: vec![],
        avail_trigger: "trigger",
        ordered: false,
        group_nested: false,
        list_fields: vec![],
        icon_gfx: None,
        desc_suffix: true,
    };
    assert(texts(r.scalars@[0].options@) =~= Seq::<Seq<char>>::empty());
    assert(texts(r.scalars@[1].options@) =~= Seq::<Seq<char>>::empty());
    assert(texts(r.scalars@[2].options@) =~= Seq::<Seq<char>>::empty());
    assert(texts(r.scalars@[3].options@) =~= Seq::<Seq<char>>::empty());
    assert(texts(r.scalars@[4].options@) =~= Seq::<Seq<char>>::empty());
    assert(texts(r.scalars@[5].options@) =~= Seq::<Seq<char>>::empty());
    assert(texts(r.scalars@[6].options@) =~= Seq::<Seq<char>>::empty());
    assert(texts(r.scalars@[7].options@) =~= Seq::<Seq<char>>::empty());
    assert(texts(r.scalars@[8].options@) =~= Seq::<Seq<char>>::empty());
    assert(texts(r.scalars@[9].options@) =~= Seq::<Seq<char>>::empty());
    assert(texts(r.scalars@[10].options@) =~= Seq::<Seq<char>>::empty());
    assert(texts(r.scalars@[11].options@) =~= Seq::<Seq<char>>::empty());
    assert(texts(r.scalars@[12].options@) =~= Seq::<Seq<char>>::empty());
    assert(texts(r.scalars@[13].options@) =~= Seq::<Seq<char>>::empty());
    assert(scalar_specs_view(r.scalars@) =~= fam_14().scalars);
    assert(texts(r.modifiers@) =~= fam_14().modifiers);
    assert(block_specs_view(r.scripts@) =~= fam_14().scripts);
    assert(texts(r.event_ref_keys@) =~= fam_14().event_ref_keys);
    assert(list_specs_view(r.list_fields@) =~= fam_14().list_fields);
    r
}

fn make_fam_15() -> (r: Family)
    ensures
        family_view(r) == fam_15(),
{
    let r = Family {
        id: "buildings",
        label: "Buildings",
        dir: "common/buildings",
        project_file: "common/buildings/zz_eutoolkit_buildings.txt",
        has_color: false,
        icon: "none",
        scalars: vec![ScalarSpec { key: "cost", kind: "int", options: vec![], picker: "" }, ScalarSpec { key: "time", kind: "int", options: vec![], picker: "" }, ScalarSpec { key: "make_obsolete", kind: "token", options: vec![], picker: "building" }, ScalarSpec { key: "onmap", kind: "bool", options: vec![], picker: "" }, ScalarSpec { key: "influencing_fort", kind: "bool", options: vec![], picker: "" }, ScalarSpec { key: "one_per_country", kind: "bool", options: vec![], picker: "" }, ScalarSpec { key: "show_separate", kind: "bool", options: vec![], picker: "" }, ScalarSpec { key: "allow_in_gold_provinces", kind: "bool", options: vec![], picker: "" }],
        modifiers: vec!["modifier"],
        self_modifier: false,
        scripts: vec![BlockSpec { name: "build_trigger", registry: "triggers" }, BlockSpec { name: "keep_trigger", registry: "triggers" }, BlockSpec { name: "potential", registry: "triggers" }, BlockSpec { name: "on_built", registry: "effects" }, BlockSpec { name: "on_destroyed", registry: "effects" }, BlockSpec { name: "on_obsolete", registry: "effects" }, BlockSpec { name: "ai_will_do", registry: "triggers" }],
        event_ref_keys: vec![],
        avail_trigger: "",
        ordered: false,
        group_nested: false,
        list_fields: vec![ListSpec { name: "manufactory", picker: "trade_good" }],
        icon_gfx: Some(IconGfx { gfx_file: "interface/zz_eutoolkit_buildings.gfx", sprite_prefix: "GFX_", texture: "gfx//interface//buildings//building_default.tga" }),
        desc_suffix: true,
    };
    assert(texts(r.scalars@[0].options@) =~= Seq::<Seq<char>>::empty());
    assert(texts(r.scalars@[1].options@) =~= Seq::<Seq<char>>::empty());
    assert(texts(r.scalars@[2].options@) =~= Seq::<Seq<char>>::empty());
    assert(texts(r.scalars@[3].options@) =~= Seq::<Seq<char>>::empty());
    assert(texts(r.scalars@[4].options@) =~= Seq::<Seq<char>>::empty());
    assert(texts(r.scalars@[5].options@) =~= Seq::<Seq<char>>::empty());
    assert(texts(r.scalars@[6].options@) =~= Seq::<Seq<char>>::empty());
    assert(texts(r.scalars@[7].options@) =~= Seq::<Seq<char>>::empty());
    assert(scalar_specs_view(r.scalars@) =~= fam_15().scalars);
    assert(texts(r.modifiers@) =~= fam_15().modifiers);
    assert(block_specs_view(r.scripts@) =~= fam_15().scripts);
    assert(texts(r.event_ref_keys@) =~= fam_15().event_ref_keys);
    assert(list_specs_view(r.list_fields@) =~= fam_15().list_fields);
    r
}

fn make_fam_16() -> (r: Family)
    ensures
        family_view(r) == fam_16(),
{
    let r = Family {
        id: "institutions",
        label: "Institutions",
        dir: "common/institutions",
        project_file: "common/institutions/zz_eutoolkit_institutions.txt",
        has_color: false,
        icon: "none",
        scalars: vec![ScalarSpec { key: "trade_company_efficiency", kind: "num", options: vec![], picker: "" }, ScalarSpec { key: "historical_start_date", kind: "token", options: vec![], picker: "" }, ScalarSpec { key: "historical_start_province", kind: "int", options: vec![], picker: "province" }, ScalarSpec { key: "start_chance", kind: "int", options: vec![], picker: "" }, ScalarSpec { key: "on_start", kind: "token", options: vec![], picker: "" }],
        modifiers: vec!["bonus"],
        self_modifier: false,
        scripts: vec![BlockSpec { name: "history", registry: "triggers" }, BlockSpec { name: "can_start", registry: "triggers" }, BlockSpec { name: "can_embrace", registry: "triggers" }, BlockSpec { name: "embracement_speed", registry: "triggers" }, BlockSpec { name: "ai_will_do", registry: "triggers" }],
        event_ref_keys: vec!["on_start"],
        avail_trigger: "",
        ordered: false,
        group_nested: false,
        list_fields: vec![],
        icon_gfx: Some(IconGfx { gfx_file: "interface/zz_eutoolkit_institutions.gfx", sprite_prefix: "GFX_icon_institution_", texture: "gfx//interface//institutions//feudalism.dds" }),
        desc_suffix: true,
    };
    assert(texts(r.scalars@[0].options@) =~= Seq::<Seq<char>>::empty());
    assert(texts(r.scalars@[1].options@) =~= Seq::<Seq<char>>::empty());
    assert(texts(r.scalars@[2].options@) =~= Seq::<Seq<char>>::empty());
    assert(texts(r.scalars@[3].options@) =~= Seq::<Seq<char>>::empty());
    assert(texts(r.scalars@[4].options@) =~= Seq::<Seq<char>>::empty());
    assert(scalar_specs_view(r.scalars@) =~= fam_16().scalars);
    assert(texts(r.modifiers@) =~= fam_16().modifiers);
    assert(block_specs_view(r.scripts@) =~= fam_16().scripts);
    assert(texts(r.event_ref_keys@) =~= fam_16().event_ref_keys);
    assert(list_specs_view(r.list_fields@) =~= fam_16().list_fields);
    r
}

fn make_fam_17() -> (r: Family)
    ensures
        family_view(r) == fam_17(),
{
    let r = Family {
        id: "governments",
        label: "Governments",
        dir: "common/governments",
        project_file: "common/governments/zz_eutoolkit_governments.txt",
        has_color: true,
        icon: "none",
        scalars: vec![ScalarSpec { key: "basic_reform", kind: "token", options: vec![], picker: "" }],
        modifiers: vec![],
        self_modifier: false,
        scripts: vec![],
        event_ref_keys: vec![],
        avail_trigger: "",
        ordered: false,
        group_nested: false,
        list_fields: vec![ListSpec { name: "legacy_government", picker: "" }],
        icon_gfx: None,
        desc_suffix: false,
    };
    assert(texts(r.scalars@[0].options@) =~= Seq::<Seq<char>>::empty());
    assert(scalar_specs_view(r.scalars@) =~= fam_17().scalars);
    assert(texts(r.modifiers@) =~= fam_17().modifiers);
    assert(block_specs_view(r.scripts@) =~= fam_17().scripts);
    assert(texts(r.event_ref_keys@) =~= fam_17().event_ref_keys);
    assert(list_specs_view(r.list_fields@) =~= fam_17().list_fields);
    r
}

fn make_fam_18() -> (r: Family)
    ensures
        family_view(r) == fam_18(),
{
    let r = Family {
        id: "subject_types",
        label: "Subject Types",
        dir: "common/subject_types",
        project_file: "common/subject_types/zz_eutoolkit_subject_types.txt",
        has_color: false,
        icon: "none",
        scalars: vec![ScalarSpec { key: "copy_from", kind: "token", options: vec![], picker: "subject_type" }, ScalarSpec { key: "relative_power_class", kind: "int", options: vec![], picker: "" }, ScalarSpec { key: "diplomacy_view_class", kind: "int", options: vec![], picker: "" }, ScalarSpec { key: "base_liberty_desire", kind: "int", options: vec![], picker: "" }],
        modifiers: vec!["modifier_subject", "modifier_overlord"],
        self_modifier: true,
        scripts: vec![BlockSpec { name: "is_potential_overlord", registry: "triggers" }],
        event_ref_keys: vec![],
        avail_trigger: "",
        ordered: false,
        group_nested: false,
        list_fields: vec![],
        icon_gfx: None,
        desc_suffix: false,
    };
    assert(texts(r.scalars@[0].options@) =~= Seq::<Seq<char>>::empty());
    assert(texts(r.scalars@[1].options@) =~= Seq::<Seq<char>>::empty());
    assert(texts(r.scalars@[2].options@) =~= Seq::<Seq<char>>::empty());
    assert(texts(r.scalars@[3].options@) =~= Seq::<Seq<char>>::empty());
    assert(scalar_specs_view(r.scalars@) =~= fam_18().scalars);
    assert(texts(r.modifiers@) =~= fam_18().modifiers);
    assert(block_specs_view(r.scripts@) =~= fam_18().scripts);
    assert(texts(r.event_ref_keys@) =~= fam_18().event_ref_keys);
    assert(list_specs_view(r.list_fields@) =~= fam_18().list_fields);
    r
}

fn make_fam_19() -> (r: Family)
    ensures
        family_view(r) == fam_19(),
{
    let r = Family {
        id: "subject_type_upgrades",
        label: "Subject Type Upgrades",
        dir: "common/subject_type_upgrades",
        project_file: "common/subject_type_upgrades/zz_eutoolkit_subject_type_upgrades.txt",
        has_color: false,
        icon: "none",
        scalars: vec![ScalarSpec { key: "cost", kind: "int", options: vec![], picker: "" }],
        modifiers: vec!["modifier_overlord", "modifier_subject"],
        self_modifier: false,
        scripts: vec![BlockSpec { name: "can_upgrade_trigger", registry: "triggers" }, BlockSpec { name: "effect", registry: "effects" }, BlockSpec { name: "removed_effect", registry: "effects" }],
        event_ref_keys: vec![],
        avail_trigger: "can_upgrade_trigger",
        ordered: false,
        group_nested: false,
        list_fields: vec![],
        icon_gfx: None,
        desc_suffix: false,
    };
    assert(texts(r.scalars@[0].options@) =~= Seq::<Seq<char>>::empty());
    assert(scalar_specs_view(r.scalars@) =~= fam_19().scalars);
    assert(texts(r.modifiers@) =~= fam_19().modifiers);
    assert(block_specs_view(r.scripts@) =~= fam_19().scripts);
    assert(texts(r.event_ref_keys@) =~= fam_19().event_ref_keys);
    assert(list_specs_view(r.list_fields@) =~= fam_19().list_fields);
    r
}

fn make_fam_20() -> (r: Family)
    ensures
        family_view(r) == fam_20(),
{
    let r = Family {
        id: "cb_types",
        label: "Casus Belli Types",
        dir: "common/cb_types",
        project_file: "common/cb_types/zz_eutoolkit_cb_types.txt",
        has_color: false,
        icon: "none",
        scalars: vec![ScalarSpec { key: "war_goal", kind: "token", options: vec![], picker: "wargoal_type" }, ScalarSpec { key: "months", kind: "int", options: vec![], picker: "" }, ScalarSpec { key: "is_triggered_only", kind: "bool", options: vec![], picker: "" }, ScalarSpec { key: "valid_for_subject", kind: "bool", options: vec![], picker: "" }, ScalarSpec { key: "no_opinion_hit", kind: "bool", options: vec![], picker: "" }],
        modifiers: vec![],
        self_modifier: false,
        scripts: vec![BlockSpec { name: "prerequisites", registry: "triggers" }, BlockSpec { name: "prerequisites_self", registry: "triggers" }],
        event_ref_keys: vec![],
        avail_trigger: "prerequisites",
        ordered: false,
        group_nested: false,
        list_fields: vec![ListSpec { name: "attacker_disabled_po", picker: "" }],
        icon_gfx: None,
        desc_suffix: false,
    };
    assert(texts(r.scalars@[0].options@) =~= Seq::<Seq<char>>::empty());
    assert(texts(r.scalars@[1].options@) =~= Seq::<Seq<char>>::empty());
    assert(texts(r.scalars@[2].options@) =~= Seq::<Seq<char>>::empty());
    assert(texts(r.scalars@[3].options@) =~= Seq::<Seq<char>>::empty());
    assert(texts(r.scalars@[4].options@) =~= Seq::<Seq<char>>::empty());
    assert(scalar_specs_view(r.scalars@) =~= fam_20().scalars);
    assert(texts(r.modifiers@) =~= fam_20().modifiers);
    assert(block_specs_view(r.scripts@) =~= fam_20().scripts);
    assert(texts(r.event_ref_keys@) =~= fam_20().event_ref_keys);
    assert(list_specs_view(r.list_fields@) =~= fam_20().list_fields);
    r
}

fn make_fam_21() -> (r: Family)
    ensures
        family_view(r) == fam_21(),
{
    let r = Family {
        id: "wargoal_types",
        label: "War Goal Types",
        dir: "common/wargoal_types",
        project_file: "common/wargoal_types/zz_eutoolkit_wargoal_types.txt",
        has_color: false,
        icon: "none",
        scalars: vec![ScalarSpec { key: "type", kind: "enum", options: vec!["superiority", "take_capital", "take_province", "take_core", "take_border", "take_colony", "defend_capital", "defend_country", "naval_superiority", "take_region", "blockade_ports"], picker: "" }, ScalarSpec { key: "war_name", kind: "token", options: vec![], picker: "" }, ScalarSpec { key: "prov_desc", kind: "token", options: vec![], picker: "" }, ScalarSpec { key: "country_desc", kind: "token", options: vec![], picker: "" }, ScalarSpec { key: "elector_relation", kind: "str", options: vec![], picker: "" }, ScalarSpec { key: "transfer_trade_cost_factor", kind: "num", options: vec![], picker: "" }, ScalarSpec { key: "allow_annex", kind: "bool", options: vec![], picker: "" }, ScalarSpec { key: "deny_annex", kind: "bool", options: vec![], picker: "" }, ScalarSpec { key: "allowed_provinces_are_eligible", kind: "bool", options: vec![], picker: "" }, ScalarSpec { key: "required_treaty_to_take_provinces", kind: "token", options: vec![], picker: "peace_treaty" }],
        modifiers: vec!["attacker", "defender"],
        self_modifier: false,
        scripts: vec![BlockSpec { name: "allowed_provinces", registry: "triggers" }],
        event_ref_keys: vec![],
        avail_trigger: "",
        ordered: false,
        group_nested: false,
        list_fields: vec![],
        icon_gfx: None,
        desc_suffix: false,
    };
    assert(texts(r.scalars@[0].options@) =~= seq!["superiority"@, "take_capital"@, "take_province"@, "take_core"@, "take_border"@, "take_colony"@, "defend_capital"@, "defend_country"@, "naval_superiority"@, "take_region"@, "blockade_ports"@]);
    assert(texts(r.scalars@[1].options@) =~= Seq::<Seq<char>>::empty());
    assert(texts(r.scalars@[2].options@) =~= Seq::<Seq<char>>::empty());
    assert(texts(r.scalars@[3].options@) =~= Seq::<Seq<char>>::empty());
    assert(texts(r.scalars@[4].options@) =~= Seq::<Seq<char>>::empty());
    assert(texts(r.scalars@[5].options@) =~= Seq::<Seq<char>>::empty());
    assert(texts(r.scalars@[6].options@) =~= Seq::<Seq<char>>::empty());
    assert(texts(r.scalars@[7].options@) =~= Seq::<Seq<char>>::empty());
    assert(texts(r.scalars@[8].options@) =~= Seq::<Seq<char>>::empty());
    assert(texts(r.scalars@[9].options@) =~= Seq::<Seq<char>>::empty());
    assert(scalar_specs_view(r.scalars@) =~= fam_21().scalars);
    assert(texts(r.modifiers@) =~= fam_21().modifiers);
    assert(block_specs_view(r.scripts@) =~= fam_21().scripts);
    assert(texts(r.event_ref_keys@) =~= fam_21().event_ref_keys);
    assert(list_specs_view(r.list_fields@) =~= fam_21().list_fields);
    r
}

fn make_fam_22() -> (r: Family)
    ensures
        family_view(r) == fam_22(),
{
    let r = Family {
        id: "peace_treaties",
        label: "Peace Treaties",
        dir: "common/peace_treaties",
        project_file: "common/peace_treaties/zz_eutoolkit_peace_treaties.txt",
        has_color: false,
        icon: "none",
        scalars: vec![ScalarSpec { key: "category", kind: "int", options: vec![], picker: "" }, ScalarSpec { key: "power_projection", kind: "token", options: vec![], picker: "" }, ScalarSpec { key: "power_cost_base", kind: "num", options: vec![], picker: "" }, ScalarSpec { key: "prestige_base", kind: "num", options: vec![], picker: "" }, ScalarSpec { key: "ae_base", kind: "num", options: vec![], picker: "" }, ScalarSpec { key: "warscore_cap", kind: "int", options: vec![], picker: "" }, ScalarSpec { key: "requires_demand_independence", kind: "bool", options: vec![], picker: "" }, ScalarSpec { key: "is_make_subject", kind: "bool", options: vec![], picker: "" }, ScalarSpec { key: "requires_is_allowed", kind: "bool", options: vec![], picker: "" }, ScalarSpec { key: "applies_to_war_target", kind: "bool", options: vec![], picker: "" }],
        modifiers: vec!["warscore_cost"],
        self_modifier: false,
        scripts: vec![BlockSpec { name: "is_visible", registry: "triggers" }, BlockSpec { name: "is_allowed", registry: "triggers" }, BlockSpec { name: "effect", registry: "effects" }, BlockSpec { name: "ai_weight", registry: "effects" }],
        event_ref_keys: vec![],
        avail_trigger: "is_allowed",
        ordered: false,
        group_nested: false,
        list_fields: vec![],
        icon_gfx: None,
        desc_suffix: true,
    };
    assert(texts(r.scalars@[0].options@) =~= Seq::<Seq<char>>::empty());
    assert(texts(r.scalars@[1].options@) =~= Seq::<Seq<char>>::empty());
    assert(texts(r.scalars@[2].options@) =~= Seq::<Seq<char>>::empty());
    assert(texts(r.scalars@[3].options@) =~= Seq::<Seq<char>>::empty());
    assert(texts(r.scalars@[4].options@) =~= Seq::<Seq<char>>::empty());
    assert(texts(r.scalars@[5].options@) =~= Seq::<Seq<char>>::empty());
    assert(texts(r.scalars@[6].options@) =~= Seq::<Seq<char>>::empty());
    assert(texts(r.scalars@[7].options@) =~= Seq::<Seq<char>>::empty());
    assert(texts(r.scalars@[8].options@) =~= Seq::<Seq<char>>::empty());
    assert(texts(r.scalars@[9].options@) =~= Seq::<Seq<char>>::empty());
    assert(scalar_specs_view(r.scalars@) =~= fam_22().scalars);
    assert(texts(r.modifiers@) =~= fam_22().modifiers);
    assert(block_specs_view(r.scripts@) =~= fam_22().scripts);
    assert(texts(r.event_ref_keys@) =~= fam_22().event_ref_keys);
    assert(list_specs_view(r.list_fields@) =~= fam_22().list_fields);
    r
}

fn make_fam_23() -> (r: Family)
    ensures
        family_view(r) == fam_23(),
{
    let r = Family {
        id: "policies",
        label: "Policies",
        dir: "common/policies",
        project_file: "common/policies/zz_eutoolkit_policies.txt",
        has_color: false,
        icon: "none",
        scalars: vec![ScalarSpec { key: "monarch_power", kind: "enum", options: vec!["ADM", "DIP", "MIL"], picker: "" }],
        modifiers: vec![],
        self_modifier: true,
        scripts: vec![BlockSpec { name: "potential", registry: "triggers" }, BlockSpec { name: "allow", registry: "triggers" }, BlockSpec { name: "effect", registry: "effects" }, BlockSpec { name: "removed_effect", registry: "effects" }, BlockSpec { name: "ai_will_do", registry: "triggers" }],
        event_ref_keys: vec![],
        avail_trigger: "allow",
        ordered: false,
        group_nested: false,
        list_fields: vec![],
        icon_gfx: None,
        desc_suffix: false,
    };
    assert(texts(r.scalars@[0].options@) =~= seq!["ADM"@, "DIP"@, "MIL"@]);
    assert(scalar_specs_view(r.scalars@) =~= fam_23().scalars);
    assert(texts(r.modifiers@) =~= fam_23().modifiers);
    assert(block_specs_view(r.scripts@) =~= fam_23().scripts);
    assert(texts(r.event_ref_keys@) =~= fam_23().event_ref_keys);
    assert(list_specs_view(r.list_fields@) =~= fam_23().list_fields);
    r
}

fn make_fam_24() -> (r: Family)
    ensures
        family_view(r) == fam_24(),
{
    let r = Family {
        id: "powerprojection",
        label: "Power Projection",
        dir: "common/powerprojection",
        project_file: "common/powerprojection/zz_eutoolkit_powerprojection.txt",
        has_color: false,
        icon: "none",
        scalars: vec![ScalarSpec { key: "power", kind: "int", options: vec![], picker: "" }, ScalarSpec { key: "max", kind: "int", options: vec![], picker: "" }, ScalarSpec { key: "min", kind: "int", options: vec![], picker: "" }, ScalarSpec { key: "decay", kind: "num", options: vec![], picker: "" }, ScalarSpec { key: "yearly_decay", kind: "num", options: vec![], picker: "" }],
        modifiers: vec![],
        self_modifier: false,
        scripts: vec![],
        event_ref_keys: vec![],
        avail_trigger: "",
        ordered: false,
        group_nested: false,
        list_fields: vec![],
        icon_gfx: None,
        desc_suffix: false,
    };
    assert(texts(r.scalars@[0].options@) =~= Seq::<Seq<char>>::empty());
    assert(texts(r.scalars@[1].options@) =~= Seq::<Seq<char>>::empty());
    assert(texts(r.scalars@[2].options@) =~= Seq::<Seq<char>>::empty());
    assert(texts(r.scalars@[3].options@) =~= Seq::<Seq<char>>::empty());
    assert(texts(r.scalars@[4].options@) =~= Seq::<Seq<char>>::empty());
    assert(scalar_specs_view(r.scalars@) =~= fam_24().scalars);
    assert(texts(r.modifiers@) =~= fam_24().modifiers);
    assert(block_specs_view(r.scripts@) =~= fam_24().scripts);
    assert(texts(r.event_ref_keys@) =~= fam_24().event_ref_keys);
    assert(list_specs_view(r.list_fields@) =~= fam_24().list_fields);
    r
}

fn make_fam_25() -> (r: Family)
    ensures
        family_view(r) == fam_25(),
{
    let r = Family {
        id: "idea_groups",
        label: "Idea Groups (generic)",
        dir: "common/ideas",
        project_file: "common/ideas/zz_eutoolkit_idea_groups.txt",
        has_color: false,
        icon: "none",
        scalars: vec![ScalarSpec { key: "category", kind: "enum", options: vec!["ADM", "DIP", "MIL"], picker: "" }, ScalarSpec { key: "free", kind: "bool", options: vec![], picker: "" }],
        modifiers: vec!["start", "bonus"],
        self_modifier: false,
        scripts: vec![BlockSpec { name: "trigger", registry: "triggers" }, BlockSpec { name: "ai_will_do", registry: "triggers" }],
        event_ref_keys: vec![],
        avail_trigger: "trigger",
        ordered: true,
        group_nested: false,
        list_fields: vec![],
        icon_gfx: None,
        desc_suffix: true,
    };
    assert(texts(r.scalars@[0].options@) =~= seq!["ADM"@, "DIP"@, "MIL"@]);
    assert(texts(r.scalars@[1].options@) =~= Seq::<Seq<char>>::empty());
    assert(scalar_specs_view(r.scalars@) =~= fam_25().scalars);
    assert(texts(r.modifiers@) =~= fam_25().modifiers);
    assert(block_specs_view(r.scripts@) =~= fam_25().scripts);
    assert(texts(r.event_ref_keys@) =~= fam_25().event_ref_keys);
    assert(list_specs_view(r.list_fields@) =~= fam_25().list_fields);
    r
}

fn make_fam_26() -> (r: Family)
    ensures
        family_view(r) == fam_26(),
{
    let r = Family {
        id: "advisortypes",
        label: "Advisor Types",
        dir: "common/advisortypes",
        project_file: "common/advisortypes/zz_eutoolkit_advisortypes.txt",
        has_color: false,
        icon: "none",
        scalars: vec![ScalarSpec { key: "monarch_power", kind: "enum", options: vec!["ADM", "DIP", "MIL"], picker: "" }, ScalarSpec { key: "allow_only_male", kind: "bool", options: vec![], picker: "" }, ScalarSpec { key: "allow_only_female", kind: "bool", options: vec![], picker: "" }],
        modifiers: vec![],
        self_modifier: true,
        scripts: vec![BlockSpec { name: "ai_will_do", registry: "triggers" }],
        event_ref_keys: vec![],
        avail_trigger: "",
        ordered: false,
        group_nested: false,
        list_fields: vec![],
        icon_gfx: None,
        desc_suffix: false,
    };
    assert(texts(r.scalars@[0].options@) =~= seq!["ADM"@, "DIP"@, "MIL"@]);
    assert(texts(r.scalars@[1].options@) =~= Seq::<Seq<char>>::empty());
    assert(texts(r.scalars@[2].options@) =~= Seq::<Seq<char>>::empty());
    assert(scalar_specs_view(r.scalars@) =~= fam_26().scalars);
    assert(texts(r.modifiers@) =~= fam_26().modifiers);
    assert(block_specs_view(r.scripts@) =~= fam_26().scripts);
    assert(texts(r.event_ref_keys@) =~= fam_26().event_ref_keys);
    assert(list_specs_view(r.list_fields@) =~= fam_26().list_fields);
    r
}

fn make_fam_27() -> (r: Family)
    ensures
        family_view(r) == fam_27(),
{
    let r = Family {
        id: "ruler_personalities",
        label: "Ruler Personalities",
        dir: "common/ruler_personalities",
        project_file: "common/ruler_personalities/zz_eutoolkit_ruler_personalities.txt",
        has_color: false,
        icon: "none",
        scalars: vec![ScalarSpec { key: "nation_designer_cost", kind: "int", options: vec![], picker: "" }],
        modifiers: vec![],
        self_modifier: true,
        scripts: vec![BlockSpec { name: "ruler_allow", registry: "triggers" }, BlockSpec { name: "heir_allow", registry: "triggers" }, BlockSpec { name: "consort_allow", registry: "triggers" }, BlockSpec { name: "chance", registry: "triggers" }],
        event_ref_keys: vec![],
        avail_trigger: "",
        ordered: false,
        group_nested: false,
        list_fields: vec![],
        icon_gfx: None,
        desc_suffix: false,
    };
    assert(texts(r.scalars@[0].options@) =~= Seq::<Seq<char>>::empty());
    assert(scalar_specs_view(r.scalars@) =~= fam_27().scalars);
    assert(texts(r.modifiers@) =~= fam_27().modifiers);
    assert(block_specs_view(r.scripts@) =~= fam_27().scripts);
    assert(texts(r.event_ref_keys@) =~= fam_27().event_ref_keys);
    assert(list_specs_view(r.list_fields@) =~= fam_27().list_fields);
    r
}

fn make_fam_28() -> (r: Family)
    ensures
        family_view(r) == fam_28(),
{
    let r = Family {
        id: "leader_personalities",
        label: "Leader Personalities",
        dir: "common/leader_personalities",
        project_file: "common/leader_personalities/zz_eutoolkit_leader_personalities.txt",
        has_color: false,
        icon: "none",
        scalars: vec![],
        modifiers: vec![],
        self_modifier: true,
        scripts: vec![BlockSpec { name: "allow", registry: "triggers" }],
        event_ref_keys: vec![],
        avail_trigger: "allow",
        ordered: false,
        group_nested: false,
        list_fields: vec![],
        icon_gfx: None,
        desc_suffix: false,
    };
    assert(scalar_specs_view(r.scalars@) =~= fam_28().scalars);
    assert(texts(r.modifiers@) =~= fam_28().modifiers);
    assert(block_specs_view(r.scripts@) =~= fam_28().scripts);
    assert(texts(r.event_ref_keys@) =~= fam_28().event_ref_keys);
    assert(list_specs_view(r.list_fields@) =~= fam_28().list_fields);
    r
}

fn make_fam_29() -> (r: Family)
    ensures
        family_view(r) == fam_29(),
{
    let r = Family {
        id: "event_modifiers",
        label: "Event Modifiers",
        dir: "common/event_modifiers",
        project_file: "common/event_modifiers/zz_eutoolkit_event_modifiers.txt",
        has_color: false,
        icon: "none",
        scalars: vec![],
        modifiers: vec![],
        self_modifier: true,
        scripts: vec![],
        event_ref_keys: vec![],
        avail_trigger: "",
        ordered: false,
        group_nested: false,
        list_fields: vec![],
        icon_gfx: None,
        desc_suffix: false,
    };
    assert(scalar_specs_view(r.scalars@) =~= fam_29().scalars);
    assert(texts(r.modifiers@) =~= fam_29().modifiers);
    assert(block_specs_view(r.scripts@) =~= fam_29().scripts);
    assert(texts(r.event_ref_keys@) =~= fam_29().event_ref_keys);
    assert(list_specs_view(r.list_fields@) =~= fam_29().list_fields);
    r
}

fn make_fam_30() -> (r: Family)
    ensures
        family_view(r) == fam_30(),
{
    let r = Family {
        id: "opinion_modifiers",
        label: "Opinion Modifiers",
        dir: "common/opinion_modifiers",
        project_file: "common/opinion_modifiers/zz_eutoolkit_opinion_modifiers.txt",
        has_color: false,
        icon: "none",
        scalars: vec![],
        modifiers: vec![],
        self_modifier: true,
        scripts: vec![],
        event_ref_keys: vec![],
        avail_trigger: "",
        ordered: false,
        group_nested: false,
        list_fields: vec![],
        icon_gfx: None,
        desc_suffix: false,
    };
    assert(scalar_specs_view(r.scalars@) =~= fam_30().scalars);
    assert(texts(r.modifiers@) =~= fam_30().modifiers);
    assert(block_specs_view(r.scripts@) =~= fam_30().scripts);
    assert(texts(r.event_ref_keys@) =~= fam_30().event_ref_keys);
    assert(list_specs_view(r.list_fields@) =~= fam_30().list_fields);
    r
}

fn make_fam_31() -> (r: Family)
    ensures
        family_view(r) == fam_31(),
{
    let r = Family {
        id: "static_modifiers",
        label: "Static Modifiers",
        dir: "common/static_modifiers",
        project_file: "common/static_modifiers/zz_eutoolkit_static_modifiers.txt",
        has_color: false,
        icon: "none",
        scalars: vec![],
        modifiers: vec![],
        self_modifier: true,
        scripts: vec![],
        event_ref_keys: vec![],
        avail_trigger: "",
        ordered: false,
        group_nested: false,
        list_fields: vec![],
        icon_gfx: None,
        desc_suffix: false,
    };
    assert(scalar_specs_view(r.scalars@) =~= fam_31().scalars);
    assert(texts(r.modifiers@) =~= fam_31().modifiers);
    assert(block_specs_view(r.scripts@) =~= fam_31().scripts);
    assert(texts(r.event_ref_keys@) =~= fam_31().event_ref_keys);
    assert(list_specs_view(r.list_fields@) =~= fam_31().list_fields);
    r
}

fn make_fam_32() -> (r: Family)
    ensures
        family_view(r) == fam_32(),
{
    let r = Family {
        id: "triggered_modifiers",
        label: "Triggered Modifiers",
        dir: "common/triggered_modifiers",
        project_file: "common/triggered_modifiers/zz_eutoolkit_triggered_modifiers.txt",
        has_color: false,
        icon: "none",
        scalars: vec![],
        modifiers: vec![],
        self_modifier: true,
        scripts: vec![BlockSpec { name: "potential", registry: "triggers" }, BlockSpec { name: "trigger", registry: "triggers" }],
        event_ref_keys: vec![],
        avail_trigger: "trigger",
        ordered: false,
        group_nested: false,
        list_fields: vec![],
        icon_gfx: None,
        desc_suffix: false,
    };
    assert(scalar_specs_view(r.scalars@) =~= fam_32().scalars);
    assert(texts(r.modifiers@) =~= fam_32().modifiers);
    assert(block_specs_view(r.scripts@) =~= fam_32().scripts);
    assert(texts(r.event_ref_keys@) =~= fam_32().event_ref_keys);
    assert(list_specs_view(r.list_fields@) =~= fam_32().list_fields);
    r
}

fn make_fam_33() -> (r: Family)
    ensures
        family_view(r) == fam_33(),
{
    let r = Family {
        id: "ages",
        label: "Ages",
        dir: "common/ages",
        project_file: "common/ages/zz_eutoolkit_ages.txt",
        has_color: false,
        icon: "none",
        scalars: vec![ScalarSpec { key: "start", kind: "int", options: vec![], picker: "" }, ScalarSpec { key: "papacy", kind: "num", options: vec![], picker: "" }, ScalarSpec { key: "religious_conflicts", kind: "bool", options: vec![], picker: "" }],
        modifiers: vec!["absolutism"],
        self_modifier: false,
        scripts: vec![BlockSpec { name: "can_start", registry: "triggers" }],
        event_ref_keys: vec![],
        avail_trigger: "can_start",
        ordered: false,
        group_nested: false,
        list_fields: vec![],
        icon_gfx: None,
        desc_suffix: false,
    };
    assert(texts(r.scalars@[0].options@) =~= Seq::<Seq<char>>::empty());
    assert(texts(r.scalars@[1].options@) =~= Seq::<Seq<char>>::empty());
    assert(texts(r.scalars@[2].options@) =~= Seq::<Seq<char>>::empty());
    assert(scalar_specs_view(r.scalars@) =~= fam_33().scalars);
    assert(texts(r.modifiers@) =~= fam_33().modifiers);
    assert(block_specs_view(r.scripts@) =~= fam_33().scripts);
    assert(texts(r.event_ref_keys@) =~= fam_33().event_ref_keys);
    assert(list_specs_view(r.list_fields@) =~= fam_33().list_fields);
    r
}

fn make_fam_34() -> (r: Family)
    ensures
        family_view(r) == fam_34(),
{
    let r = Family {
        id: "hegemons",
        label: "Hegemons",
        dir: "common/hegemons",
        project_file: "common/hegemons/zz_eutoolkit_hegemons.txt",
        has_color: false,
        icon: "none",
        scalars: vec![],
        modifiers: vec!["base", "scale", "max"],
        self_modifier: false,
        scripts: vec![BlockSpec { name: "allow", registry: "triggers" }, BlockSpec { name: "effect", registry: "effects" }, BlockSpec { name: "removed_effect", registry: "effects" }],
        event_ref_keys: vec![],
        avail_trigger: "allow",
        ordered: false,
        group_nested: false,
        list_fields: vec![],
        icon_gfx: None,
        desc_suffix: false,
    };
    assert(scalar_specs_view(r.scalars@) =~= fam_34().scalars);
    assert(texts(r.modifiers@) =~= fam_34().modifiers);
    assert(block_specs_view(r.scripts@) =~= fam_34().scripts);
    assert(texts(r.event_ref_keys@) =~= fam_34().event_ref_keys);
    assert(list_specs_view(r.list_fields@) =~= fam_34().list_fields);
    r
}

fn make_fam_35() -> (r: Family)
    ensures
        family_view(r) == fam_35(),
{
    let r = Family {
        id: "government_ranks",
        label: "Government Ranks",
        dir: "common/government_ranks",
        project_file: "common/government_ranks/zz_eutoolkit_government_ranks.txt",
        has_color: false,
        icon: "none",
        scalars: vec![],
        modifiers: vec![],
        self_modifier: true,
        scripts: vec![],
        event_ref_keys: vec![],
        avail_trigger: "",
        ordered: false,
        group_nested: false,
        list_fields: vec![],
        icon_gfx: None,
        desc_suffix: false,
    };
    assert(scalar_specs_view(r.scalars@) =~= fam_35().scalars);
    assert(texts(r.modifiers@) =~= fam_35().modifiers);
    assert(block_specs_view(r.scripts@) =~= fam_35().scripts);
    assert(texts(r.event_ref_keys@) =~= fam_35().event_ref_keys);
    assert(list_specs_view(r.list_fields@) =~= fam_35().list_fields);
    r
}

fn make_fam_36() -> (r: Family)
    ensures
        family_view(r) == fam_36(),
{
    let r = Family {
        id: "state_edicts",
        label: "State Edicts",
        dir: "common/state_edicts",
        project_file: "common/state_edicts/zz_eutoolkit_state_edicts.txt",
        has_color: true,
        icon: "none",
        scalars: vec![],
        modifiers: vec!["modifier"],
        self_modifier: false,
        scripts: vec![BlockSpec { name: "potential", registry: "triggers" }, BlockSpec { name: "allow", registry: "triggers" }, BlockSpec { name: "ai_will_do", registry: "triggers" }],
        event_ref_keys: vec![],
        avail_trigger: "allow",
        ordered: false,
        group_nested: false,
        list_fields: vec![],
        icon_gfx: None,
        desc_suffix: false,
    };
    assert(scalar_specs_view(r.scalars@) =~= fam_36().scalars);
    assert(texts(r.modifiers@) =~= fam_36().modifiers);
    assert(block_specs_view(r.scripts@) =~= fam_36().scripts);
    assert(texts(r.event_ref_keys@) =~= fam_36().event_ref_keys);
    assert(list_specs_view(r.list_fields@) =~= fam_36().list_fields);
    r
}

fn make_fam_37() -> (r: Family)
    ensures
        family_view(r) == fam_37(),
{
    let r = Family {
        id: "natives",
        label: "Natives",
        dir: "common/natives",
        project_file: "common/natives/zz_eutoolkit_natives.txt",
        has_color: true,
        icon: "none",
        scalars: vec![ScalarSpec { key: "graphical_culture", kind: "token", options: vec![], picker: "" }, ScalarSpec { key: "unit", kind: "token", options: vec![], picker: "" }, ScalarSpec { key: "icon", kind: "int", options: vec![], picker: "" }],
        modifiers: vec![],
        self_modifier: false,
        scripts: vec![],
        event_ref_keys: vec![],
        avail_trigger: "",
        ordered: false,
        group_nested: false,
        list_fields: vec![ListSpec { name: "provinces", picker: "province" }],
        icon_gfx: None,
        desc_suffix: false,
    };
    assert(texts(r.scalars@[0].options@) =~= Seq::<Seq<char>>::empty());
    assert(texts(r.scalars@[1].options@) =~= Seq::<Seq<char>>::empty());
    assert(texts(r.scalars@[2].options@) =~= Seq::<Seq<char>>::empty());
    assert(scalar_specs_view(r.scalars@) =~= fam_37().scalars);
    assert(texts(r.modifiers@) =~= fam_37().modifiers);
    assert(block_specs_view(r.scripts@) =~= fam_37().scripts);
    assert(texts(r.event_ref_keys@) =~= fam_37().event_ref_keys);
    assert(list_specs_view(r.list_fields@) =~= fam_37().list_fields);
    r
}

fn make_fam_38() -> (r: Family)
    ensures
        family_view(r) == fam_38(),
{
    let r = Family {
        id: "trading_policies",
        label: "Trading Policies",
        dir: "common/trading_policies",
        project_file: "common/trading_policies/zz_eutoolkit_trading_policies.txt",
        has_color: false,
        icon: "none",
        scalars: vec![ScalarSpec { key: "button_gfx", kind: "token", options: vec![], picker: "" }, ScalarSpec { key: "center_of_reformation", kind: "bool", options: vec![], picker: "" }, ScalarSpec { key: "cooldown", kind: "bool", options: vec![], picker: "" }, ScalarSpec { key: "unique", kind: "bool", options: vec![], picker: "" }, ScalarSpec { key: "show_alert", kind: "bool", options: vec![], picker: "" }],
        modifiers: vec!["trade_power", "node_province_modifier", "countries_with_merchant_modifier"],
        self_modifier: false,
        scripts: vec![BlockSpec { name: "potential", registry: "triggers" }, BlockSpec { name: "can_select", registry: "triggers" }, BlockSpec { name: "can_maintain", registry: "triggers" }],
        event_ref_keys: vec![],
        avail_trigger: "can_select",
        ordered: false,
        group_nested: false,
        list_fields: vec![],
        icon_gfx: None,
        desc_suffix: false,
    };
    assert(texts(r.scalars@[0].options@) =~= Seq::<Seq<char>>::empty());
    assert(texts(r.scalars@[1].options@) =~= Seq::<Seq<char>>::empty());
    assert(texts(r.scalars@[2].options@) =~= Seq::<Seq<char>>::empty());
    assert(texts(r.scalars@[3].options@) =~= Seq::<Seq<char>>::empty());
    assert(texts(r.scalars@[4].options@) =~= Seq::<Seq<char>>::empty());
    assert(scalar_specs_view(r.scalars@) =~= fam_38().scalars);
    assert(texts(r.modifiers@) =~= fam_38().modifiers);
    assert(block_specs_view(r.scripts@) =~= fam_38().scripts);
    assert(texts(r.event_ref_keys@) =~= fam_38().event_ref_keys);
    assert(list_specs_view(r.list_fields@) =~= fam_38().list_fields);
    r
}

fn make_fam_39() -> (r: Family)
    ensures
        family_view(r) == fam_39(),
{
    let r = Family {
        id: "tradecompany_investments",
        label: "Trade Company Investments",
        dir: "common/tradecompany_investments",
        project_file: "common/tradecompany_investments/zz_eutoolkit_tradecompany_investments.txt",
        has_color: false,
        icon: "none",
        scalars: vec![ScalarSpec { key: "category", kind: "token", options: vec![], picker: "" }, ScalarSpec { key: "cost", kind: "num", options: vec![], picker: "" }, ScalarSpec { key: "upgrades_to", kind: "token", options: vec![], picker: "" }, ScalarSpec { key: "sprite", kind: "str", options: vec![], picker: "" }],
        modifiers: vec!["company_province_area_modifier", "area_modifier", "company_region_modifier", "owner_modifier", "owner_company_region_modifier"],
        self_modifier: false,
        scripts: vec![BlockSpec { name: "allow", registry: "triggers" }, BlockSpec { name: "ai_global_worth", registry: "triggers" }, BlockSpec { name: "ai_area_worth", registry: "triggers" }, BlockSpec { name: "ai_region_worth", registry: "triggers" }],
        event_ref_keys: vec![],
        avail_trigger: "allow",
        ordered: false,
        group_nested: false,
        list_fields: vec![],
        icon_gfx: None,
        desc_suffix: false,
    };
    assert(texts(r.scalars@[0].options@) =~= Seq::<Seq<char>>::empty());
    assert(texts(r.scalars@[1].options@) =~= Seq::<Seq<char>>::empty());
    assert(texts(r.scalars@[2].options@) =~= Seq::<Seq<char>>::empty());
    assert(texts(r.scalars@[3].options@) =~= Seq::<Seq<char>>::empty());
    assert(scalar_specs_view(r.scalars@) =~= fam_39().scalars);
    assert(texts(r.modifiers@) =~= fam_39().modifiers);
    assert(block_specs_view(r.scripts@) =~= fam_39().scripts);
    assert(texts(r.event_ref_keys@) =~= fam_39().event_ref_keys);
    assert(list_specs_view(r.list_fields@) =~= fam_39().list_fields);
    r
}

fn make_fam_40() -> (r: Family)
    ensures
        family_view(r) == fam_40(),
{
    let r = Family {
        id: "centers_of_trade",
        label: "Centers of Trade",
        dir: "common/centers_of_trade",
        project_file: "common/centers_of_trade/zz_eutoolkit_centers_of_trade.txt",
        has_color: false,
        icon: "none",
        scalars: vec![ScalarSpec { key: "level", kind: "int", options: vec![], picker: "" }, ScalarSpec { key: "development", kind: "int", options: vec![], picker: "" }, ScalarSpec { key: "cost", kind: "int", options: vec![], picker: "" }, ScalarSpec { key: "type", kind: "enum", options: vec!["inland", "coastal"], picker: "" }],
        modifiers: vec!["province_modifiers", "state_modifiers", "global_modifiers"],
        self_modifier: false,
        scripts: vec![],
        event_ref_keys: vec![],
        avail_trigger: "",
        ordered: false,
        group_nested: false,
        list_fields: vec![],
        icon_gfx: None,
        desc_suffix: false,
    };
    assert(texts(r.scalars@[0].options@) =~= Seq::<Seq<char>>::empty());
    assert(texts(r.scalars@[1].options@) =~= Seq::<Seq<char>>::empty());
    assert(texts(r.scalars@[2].options@) =~= Seq::<Seq<char>>::empty());
    assert(texts(r.scalars@[3].options@) =~= seq!["inland"@, "coastal"@]);
    assert(scalar_specs_view(r.scalars@) =~= fam_40().scalars);
    assert(texts(r.modifiers@) =~= fam_40().modifiers);
    assert(block_specs_view(r.scripts@) =~= fam_40().scripts);
    assert(texts(r.event_ref_keys@) =~= fam_40().event_ref_keys);
    assert(list_specs_view(r.list_fields@) =~= fam_40().list_fields);
    r
}

fn make_fam_41() -> (r: Family)
    ensures
        family_view(r) == fam_41(),
{
    let r = Family {
        id: "naval_doctrines",
        label: "Naval Doctrines",
        dir: "common/naval_doctrines",
        project_file: "common/naval_doctrines/zz_eutoolkit_naval_doctrines.txt",
        has_color: false,
        icon: "none",
        scalars: vec![ScalarSpec { key: "cost", kind: "num", options: vec![], picker: "" }, ScalarSpec { key: "button_gfx", kind: "int", options: vec![], picker: "" }],
        modifiers: vec!["country_modifier"],
        self_modifier: false,
        scripts: vec![BlockSpec { name: "can_select", registry: "triggers" }, BlockSpec { name: "effect", registry: "effects" }, BlockSpec { name: "removed_effect", registry: "effects" }],
        event_ref_keys: vec![],
        avail_trigger: "can_select",
        ordered: false,
        group_nested: false,
        list_fields: vec![],
        icon_gfx: None,
        desc_suffix: false,
    };
    assert(texts(r.scalars@[0].options@) =~= Seq::<Seq<char>>::empty());
    assert(texts(r.scalars@[1].options@) =~= Seq::<Seq<char>>::empty());
    assert(scalar_specs_view(r.scalars@) =~= fam_41().scalars);
    assert(texts(r.modifiers@) =~= fam_41().modifiers);
    assert(block_specs_view(r.scripts@) =~= fam_41().scripts);
    assert(texts(r.event_ref_keys@) =~= fam_41().event_ref_keys);
    assert(list_specs_view(r.list_fields@) =~= fam_41().list_fields);
    r
}

fn make_fam_42() -> (r: Family)
    ensures
        family_view(r) == fam_42(),
{
    let r = Family {
        id: "professionalism",
        label: "Army Professionalism",
        dir: "common/professionalism",
        project_file: "common/professionalism/zz_eutoolkit_professionalism.txt",
        has_color: false,
        icon: "none",
        scalars: vec![ScalarSpec { key: "army_professionalism", kind: "num", options: vec![], picker: "" }, ScalarSpec { key: "hidden", kind: "bool", options: vec![], picker: "" }, ScalarSpec { key: "marker_sprite", kind: "token", options: vec![], picker: "" }, ScalarSpec { key: "unit_sprite_start", kind: "str", options: vec![], picker: "" }],
        modifiers: vec![],
        self_modifier: true,
        scripts: vec![BlockSpec { name: "trigger", registry: "triggers" }],
        event_ref_keys: vec![],
        avail_trigger: "trigger",
        ordered: false,
        group_nested: false,
        list_fields: vec![],
        icon_gfx: None,
        desc_suffix: false,
    };
    assert(texts(r.scalars@[0].options@) =~= Seq::<Seq<char>>::empty());
    assert(texts(r.scalars@[1].options@) =~= Seq::<Seq<char>>::empty());
    assert(texts(r.scalars@[2].options@) =~= Seq::<Seq<char>>::empty());
    assert(texts(r.scalars@[3].options@) =~= Seq::<Seq<char>>::empty());
    assert(scalar_specs_view(r.scalars@) =~= fam_42().scalars);
    assert(texts(r.modifiers@) =~= fam_42().modifiers);
    assert(block_specs_view(r.scripts@) =~= fam_42().scripts);
    assert(texts(r.event_ref_keys@) =~= fam_42().event_ref_keys);
    assert(list_specs_view(r.list_fields@) =~= fam_42().list_fields);
    r
}

fn make_fam_43() -> (r: Family)
    ensures
        family_view(r) == fam_43(),
{
    let r = Family {
        id: "flagship_modifications",
        label: "Flagship Modifications",
        dir: "common/flagship_modifications",
        project_file: "common/flagship_modifications/zz_eutoolkit_flagship_modifications.txt",
        has_color: false,
        icon: "none",
        scalars: vec![ScalarSpec { key: "base_modification", kind: "bool", options: vec![], picker: "" }],
        modifiers: vec!["modifier"],
        self_modifier: false,
        scripts: vec![BlockSpec { name: "trigger", registry: "triggers" }, BlockSpec { name: "ai_trade_score", registry: "triggers" }, BlockSpec { name: "ai_war_score", registry: "triggers" }],
        event_ref_keys: vec![],
        avail_trigger: "trigger",
        ordered: false,
        group_nested: false,
        list_fields: vec![],
        icon_gfx: None,
        desc_suffix: false,
    };
    assert(texts(r.scalars@[0].options@) =~= Seq::<Seq<char>>::empty());
    assert(scalar_specs_view(r.scalars@) =~= fam_43().scalars);
    assert(texts(r.modifiers@) =~= fam_43().modifiers);
    assert(block_specs_view(r.scripts@) =~= fam_43().scripts);
    assert(texts(r.event_ref_keys@) =~= fam_43().event_ref_keys);
    assert(list_specs_view(r.list_fields@) =~= fam_43().list_fields);
    r
}

fn make_fam_44() -> (r: Family)
    ensures
        family_view(r) == fam_44(),
{
    let r = Family {
        id: "custom_ideas",
        label: "Custom Ideas (Designer)",
        dir: "common/custom_ideas",
        project_file: "common/custom_ideas/zz_eutoolkit_custom_ideas.txt",
        has_color: false,
        icon: "none",
        scalars: vec![ScalarSpec { key: "category", kind: "enum", options: vec!["ADM", "DIP", "MIL"], picker: "" }],
        modifiers: vec![],
        self_modifier: false,
        scripts: vec![],
        event_ref_keys: vec![],
        avail_trigger: "",
        ordered: true,
        group_nested: false,
        list_fields: vec![],
        icon_gfx: None,
        desc_suffix: false,
    };
    assert(texts(r.scalars@[0].options@) =~= seq!["ADM"@, "DIP"@, "MIL"@]);
    assert(scalar_specs_view(r.scalars@) =~= fam_44().scalars);
    assert(texts(r.modifiers@) =~= fam_44().modifiers);
    assert(block_specs_view(r.scripts@) =~= fam_44().scripts);
    assert(texts(r.event_ref_keys@) =~= fam_44().event_ref_keys);
    assert(list_specs_view(r.list_fields@) =~= fam_44().list_fields);
    r
}

fn make_fam_45() -> (r: Family)
    ensures
        family_view(r) == fam_45(),
{
    let r = Family {
        id: "ai_personalities",
        label: "AI Personalities",
        dir: "common/ai_personalities",
        project_file: "common/ai_personalities/zz_eutoolkit_ai_personalities.txt",
        has_color: false,
        icon: "none",
        scalars: vec![ScalarSpec { key: "icon", kind: "int", options: vec![], picker: "" }],
        modifiers: vec![],
        self_modifier: false,
        scripts: vec![BlockSpec { name: "chance", registry: "triggers" }],
        event_ref_keys: vec![],
        avail_trigger: "",
        ordered: false,
        group_nested: false,
        list_fields: vec![],
        icon_gfx: None,
        desc_suffix: false,
    };
    assert(texts(r.scalars@[0].options@) =~= Seq::<Seq<char>>::empty());
    assert(scalar_specs_view(r.scalars@) =~= fam_45().scalars);
    assert(texts(r.modifiers@) =~= fam_45().modifiers);
    assert(block_specs_view(r.scripts@) =~= fam_45().scripts);
    assert(texts(r.event_ref_keys@) =~= fam_45().event_ref_keys);
    assert(list_specs_view(r.list_fields@) =~= fam_45().list_fields);
    r
}

fn make_fam_46() -> (r: Family)
    ensures
        family_view(r) == fam_46(),
{
    let r = Family {
        id: "insults",
        label: "Insults",
        dir: "common/insults",
        project_file: "common/insults/zz_eutoolkit_insults.txt",
        has_color: false,
        icon: "none",
        scalars: vec![],
        modifiers: vec![],
        self_modifier: false,
        scripts: vec![BlockSpec { name: "trigger", registry: "triggers" }],
        event_ref_keys: vec![],
        avail_trigger: "trigger",
        ordered: false,
        group_nested: false,
        list_fields: vec![],
        icon_gfx: None,
        desc_suffix: false,
    };
    assert(scalar_specs_view(r.scalars@) =~= fam_46().scalars);
    assert(texts(r.modifiers@) =~= fam_46().modifiers);
    assert(block_specs_view(r.scripts@) =~= fam_46().scripts);
    assert(texts(r.event_ref_keys@) =~= fam_46().event_ref_keys);
    assert(list_specs_view(r.list_fields@) =~= fam_46().list_fields);
    r
}

fn make_fam_47() -> (r: Family)
    ensures
        family_view(r) == fam_47(),
{
    let r = Family {
        id: "imperial_reforms",
        label: "Imperial Reforms",
        dir: "common/imperial_reforms",
        project_file: "common/imperial_reforms/zz_eutoolkit_imperial_reforms.txt",
        has_color: false,
        icon: "none",
        scalars: vec![ScalarSpec { key: "empire", kind: "token", options: vec![], picker: "" }, ScalarSpec { key: "required_reform", kind: "token", options: vec![], picker: "" }, ScalarSpec { key: "gui_container", kind: "token", options: vec![], picker: "" }],
        modifiers: vec!["emperor", "member", "elector", "all", "province", "emperor_per_prince"],
        self_modifier: false,
        scripts: vec![BlockSpec { name: "potential", registry: "triggers" }, BlockSpec { name: "trigger", registry: "triggers" }, BlockSpec { name: "on_effect", registry: "effects" }, BlockSpec { name: "off_effect", registry: "effects" }],
        event_ref_keys: vec![],
        avail_trigger: "potential",
        ordered: false,
        group_nested: false,
        list_fields: vec![],
        icon_gfx: None,
        desc_suffix: true,
    };
    assert(texts(r.scalars@[0].options@) =~= Seq::<Seq<char>>::empty());
    assert(texts(r.scalars@[1].options@) =~= Seq::<Seq<char>>::empty());
    assert(texts(r.scalars@[2].options@) =~= Seq::<Seq<char>>::empty());
    assert(scalar_specs_view(r.scalars@) =~= fam_47().scalars);
    assert(texts(r.modifiers@) =~= fam_47().modifiers);
    assert(block_specs_view(r.scripts@) =~= fam_47().scripts);
    assert(texts(r.event_ref_keys@) =~= fam_47().event_ref_keys);
    assert(list_specs_view(r.list_fields@) =~= fam_47().list_fields);
    r
}

fn make_fam_48() -> (r: Family)
    ensures
        family_view(r) == fam_48(),
{
    let r = Family {
        id: "imperial_incidents",
        label: "Imperial Incidents",
        dir: "common/imperial_incidents",
        project_file: "common/imperial_incidents/zz_eutoolkit_imperial_incidents.txt",
        has_color: false,
        icon: "none",
        scalars: vec![ScalarSpec { key: "event", kind: "token", options: vec![], picker: "" }, ScalarSpec { key: "default_option", kind: "int", options: vec![], picker: "" }],
        modifiers: vec![],
        self_modifier: false,
        scripts: vec![BlockSpec { name: "can_stop", registry: "triggers" }],
        event_ref_keys: vec!["event"],
        avail_trigger: "can_stop",
        ordered: false,
        group_nested: false,
        list_fields: vec![],
        icon_gfx: None,
        desc_suffix: true,
    };
    assert(texts(r.scalars@[0].options@) =~= Seq::<Seq<char>>::empty());
    assert(texts(r.scalars@[1].options@) =~= Seq::<Seq<char>>::empty());
    assert(scalar_specs_view(r.scalars@) =~= fam_48().scalars);
    assert(texts(r.modifiers@) =~= fam_48().modifiers);
    assert(block_specs_view(r.scripts@) =~= fam_48().scripts);
    assert(texts(r.event_ref_keys@) =~= fam_48().event_ref_keys);
    assert(list_specs_view(r.list_fields@) =~= fam_48().list_fields);
    r
}

fn make_fam_49() -> (r: Family)
    ensures
        family_view(r) == fam_49(),
{
    let r = Family {
        id: "decrees",
        label: "Decrees",
        dir: "common/decrees",
        project_file: "common/decrees/zz_eutoolkit_decrees.txt",
        has_color: false,
        icon: "none",
        scalars: vec![ScalarSpec { key: "cost", kind: "int", options: vec![], picker: "" }, ScalarSpec { key: "duration", kind: "int", options: vec![], picker: "" }],
        modifiers: vec!["modifier"],
        self_modifier: false,
        scripts: vec![BlockSpec { name: "potential", registry: "triggers" }, BlockSpec { name: "trigger", registry: "triggers" }, BlockSpec { name: "effect", registry: "effects" }, BlockSpec { name: "removed_effect", registry: "effects" }, BlockSpec { name: "ai_will_do", registry: "triggers" }],
        event_ref_keys: vec![],
        avail_trigger: "potential",
        ordered: false,
        group_nested: false,
        list_fields: vec![],
        icon_gfx: None,
        desc_suffix: true,
    };
    assert(texts(r.scalars@[0].options@) =~= Seq::<Seq<char>>::empty());
    assert(texts(r.scalars@[1].options@) =~= Seq::<Seq<char>>::empty());
    assert(scalar_specs_view(r.scalars@) =~= fam_49().scalars);
    assert(texts(r.modifiers@) =~= fam_49().modifiers);
    assert(block_specs_view(r.scripts@) =~= fam_49().scripts);
    assert(texts(r.event_ref_keys@) =~= fam_49().event_ref_keys);
    assert(list_specs_view(r.list_fields@) =~= fam_49().list_fields);
    r
}


/// The mechanics families, in table order.
#[verifier::spinoff_prover]
#[verifier::rlimit(60)]
pub fn families() -> (r: Vec<Family>)
    ensures
        families_view(r@) == family_table(),
{
    let mut v: Vec<Family> = Vec::new();
    v.push(make_fam_0());
    v.push(make_fam_1());
    v.push(make_fam_2());
    v.push(make_fam_3());
    v.push(make_fam_4());
    v.push(make_fam_5());
    v.push(make_fam_6());
    v.push(make_fam_7());
    v.push(make_fam_8());
    v.push(make_fam_9());
    v.push(make_fam_10());
    v.push(make_fam_11());
    v.push(make_fam_12());
    v.push(make_fam_13());
    v.push(make_fam_14());
    v.push(make_fam_15());
    v.push(make_fam_16());
    v.push(make_fam_17());
    v.push(make_fam_18());
    v.push(make_fam_19());
    v.push(make_fam_20());
    v.push(make_fam_21());
    v.push(make_fam_22());
    v.push(make_fam_23());
    v.push(make_fam_24());
    v.push(make_fam_25());
    v.push(make_fam_26());
    v.push(make_fam_27());
    v.push(make_fam_28());
    v.push(make_fam_29());
    v.push(make_fam_30());
    v.push(make_fam_31());
    v.push(make_fam_32());
    v.push(make_fam_33());
    v.push(make_fam_34());
    v.push(make_fam_35());
    v.push(make_fam_36());
    v.push(make_fam_37());
    v.push(make_fam_38());
    v.push(make_fam_39());
    v.push(make_fam_40());
    v.push(make_fam_41());
    v.push(make_fam_42());
    v.push(make_fam_43());
    v.push(make_fam_44());
    v.push(make_fam_45());
    v.push(make_fam_46());
    v.push(make_fam_47());
    v.push(make_fam_48());
    v.push(make_fam_49());
    assert(families_view(v@) =~= family_table());
    v
}


/// The number of families.
pub open spec fn family_count() -> nat {
    family_table().len()
}

/// The index of the first family with id `id`, searching from `k`.
pub open spec fn family_pos_from(id: Seq<char>, k: int) -> Option<int>
    decreases family_table().len() - k,
{
    if k < 0 || k >= family_table().len() {
        None
    } else if family_table()[k].id == id {
        Some(k)
    } else {
        family_pos_from(id, k + 1)
    }
}

/// The index of the family with id `id`.
pub open spec fn family_pos(id: Seq<char>) -> Option<int> {
    family_pos_from(id, 0)
}

proof fn lemma_pos_range(id: Seq<char>, k: int)
    requires
        0 <= k,
    ensures
        family_pos_from(id, k) matches Some(i) ==> k <= i < family_table().len() && family_table()[i].id == id,
    decreases family_table().len() - k,
{
    if k < family_table().len() && family_table()[k].id != id {
        lemma_pos_range(id, k + 1);
    }
}

/// The index of the family with id `id` in `fams`, the table.
fn family_index(fams: &Vec<Family>, id: &str) -> (r: Option<usize>)
    requires
        families_view(fams@) == family_table(),
    ensures
        match r {
            Some(k) => family_pos(id@) == Some(k as int),
            None => family_pos(id@) is None,
        },
{
    proof {
        lemma_pos_range(id@, 0);
    }
    let mut k: usize = 0;
    while k < fams.len()
        invariant
            k <= fams@.len(),
            families_view(fams@) == family_table(),
            family_pos_from(id@, k as int) == family_pos(id@),
        decreases fams@.len() - k,
    {
        assert(families_view(fams@)[k as int] == family_view(fams@[k as int]));
        if str_eq(fams[k].id, id) {
            return Some(k);
        }
        k = k + 1;
    }
    None
}

/// The id of every family, in table order.
pub fn family_ids() -> (r: Vec<&'static str>)
    ensures
        r@.len() == family_table().len(),
        forall|k: int| 0 <= k < r@.len() ==> (#[trigger] r@[k])@ == family_table()[k].id,
{
    let fams = families();
    let mut out: Vec<&'static str> = Vec::new();
    let mut k: usize = 0;
    while k < fams.len()
        invariant
            k <= fams@.len(),
            families_view(fams@) == family_table(),
            out@.len() == k,
            forall|j: int| 0 <= j < k ==> (#[trigger] out@[j])@ == family_table()[j].id,
        decreases fams@.len() - k,
    {
        assert(families_view(fams@)[k as int] == family_view(fams@[k as int]));
        out.push(fams[k].id);
        k = k + 1;
    }
    out
}

// ---------------------------------------------------------------------------
// Per-family rules kept out of the table
// ---------------------------------------------------------------------------

/// Families hidden from the family selector (the empire families, edited in
/// their own overlay but still loadable by id).
pub open spec fn hidden_spec(id: Seq<char>) -> bool {
    id == "imperial_reforms"@ || id == "imperial_incidents"@ || id == "decrees"@
}

fn family_hidden(id: &str) -> (r: bool)
    ensures
        r == hidden_spec(id@),
{
    str_eq(id, "imperial_reforms") || str_eq(id, "imperial_incidents") || str_eq(id, "decrees")
}

/// Families whose set of entities the game hardcodes: no create affordance.
pub open spec fn no_create_spec(id: Seq<char>) -> bool {
    id == "ai_personalities"@
}

fn family_no_create(id: &str) -> (r: bool)
    ensures
        r == no_create_spec(id@),
{
    str_eq(id, "ai_personalities")
}

/// Keys that are structural noise rather than entities, per family.
pub open spec fn exclude_spec(id: Seq<char>) -> Seq<Seq<char>> {
    if id == "governments"@ {
        seq!["pre_dharma_mapping"@]
    } else if id == "subject_types"@ {
        seq!["default"@, "dummy"@]
    } else {
        Seq::empty()
    }
}

/// Families that forward-declare every entity (`key = {}`) and define it
/// later: only the richest occurrence of a key is kept.
pub open spec fn dedup_spec(id: Seq<char>) -> bool {
    id == "subject_types"@
}

/// The loc desc key of an entity of a family.
pub open spec fn desc_key_spec(f: FamilyView, key: Seq<char>) -> Seq<char> {
    if f.desc_suffix {
        key + "_desc"@
    } else {
        "desc_"@ + key
    }
}

fn desc_key_of(fam: &Family, key: &str) -> (r: String)
    ensures
        r@ == desc_key_spec(family_view(*fam), key@),
{
    if fam.desc_suffix {
        let mut s = key.to_string();
        s.append("_desc");
        s
    } else {
        let mut s = String::from_str("desc_");
        s.append(key);
        s
    }
}

// ---------------------------------------------------------------------------
// Scaffolds
// ---------------------------------------------------------------------------

/// A self-contained `spriteTypes` block naming `<prefix><key>` at the
/// family's base texture.
pub open spec fn gfx_text(g: (Seq<char>, Seq<char>, Seq<char>), key: Seq<char>) -> Seq<char> {
    "spriteTypes = {\n\tspriteType = {\n\t\tname = \""@ + g.1 + key + "\"\n\t\ttexturefile = \""@ + g.2 + "\"\n\t\tloadType = \"INGAME\"\n\t}\n}"@
}

fn gfx_sprite_block(g: &IconGfx, key: &str) -> (s: String)
    ensures
        s@ == gfx_text(icon_gfx_view(*g), key@),
{
    let mut s = String::from_str("spriteTypes = {\n\tspriteType = {\n\t\tname = \"");
    s.append(g.sprite_prefix);
    s.append(key);
    s.append("\"\n\t\ttexturefile = \"");
    s.append(g.texture);
    s.append("\"\n\t\tloadType = \"INGAME\"\n\t}\n}");
    s
}

pub open spec fn disaster_text(key: Seq<char>) -> Seq<char> {
    key + " = {\n\tpotential = {\n\t\talways = no\n\t}\n\tcan_start = {\n\t\talways = no\n\t}\n\tcan_stop = {\n\t\talways = yes\n\t}\n\tprogress = {\n\t\tmodifier = {\n\t\t\tfactor = 1\n\t\t\talways = yes\n\t\t}\n\t}\n\tcan_end = {\n\t\talways = yes\n\t}\n\tmodifier = {\n\t\tglobal_unrest = 1\n\t}\n\ton_start = "@ + key + ".1\n\ton_end = "@ + key + ".2\n\ton_monthly = {\n\t\tevents = {\n\t\t}\n\t}\n}"@
}

pub open spec fn parliament_issue_text(key: Seq<char>) -> Seq<char> {
    key + " = {\n\tcategory = 3\n\tallow = {\n\t\talways = yes\n\t}\n\teffect = {\n\t\tadd_stability_or_adm_power = yes\n\t}\n\tai_will_do = {\n\t\tfactor = 1\n\t}\n}"@
}

pub open spec fn parliament_bribe_text(key: Seq<char>) -> Seq<char> {
    key + " = {\n\ttrigger = {\n\t\thas_reached_seat_threshold = no\n\t}\n\teffect = {\n\t\tadd_prestige = 5\n\t}\n\tai_will_do = {\n\t\tfactor = 1\n\t}\n}"@
}

pub open spec fn faction_text(key: Seq<char>) -> Seq<char> {
    key + " = {\n\tmonarch_power = ADM\n\talways = yes\n\tmodifier = {\n\t\tglobal_tax_modifier = 0.1\n\t}\n}"@
}

pub open spec fn deity_text(key: Seq<char>) -> Seq<char> {
    key + " = {\n\tglobal_tax_modifier = 0.1\n\tpotential = {\n\t}\n\ttrigger = {\n\t}\n\tsprite = 1\n\teffect = {\n\t}\n\tremoved_effect = {\n\t}\n\tai_will_do = {\n\t\tfactor = 1\n\t}\n}"@
}

pub open spec fn church_aspect_text(key: Seq<char>) -> Seq<char> {
    key + " = {\n\tcost = 100\n\teffect = {\n\t\tadd_prestige = 5\n\t}\n\tmodifier = {\n\t\tdevelopment_cost = -0.05\n\t}\n\tai_will_do = {\n\t\tfactor = 1\n\t}\n}"@
}

pub open spec fn cult_text(key: Seq<char>) -> Seq<char> {
    key + " = {\n\tland_attrition = -0.15\n\tallow = {\n\t\treligion = shamanism\n\t}\n\tsprite = 1\n\tai_will_do = {\n\t\tfactor = 1\n\t}\n}"@
}

pub open spec fn holy_order_text(key: Seq<char>) -> Seq<char> {
    key + " = {\n\ticon = GFX_holy_order_benedictines\n\ttrigger = {\n\t\treligion_group = christian\n\t}\n\tcolor = { 140 150 120 }\n\tcost = 50\n\tcost_type = adm_power\n\tper_province_effect = {\n\t\tadd_base_tax = 1\n\t}\n\tper_province_abandon_effect = {\n\t\tadd_base_tax = -1\n\t}\n\tmodifier = {\n\t\tlocal_unrest = -1\n\t}\n\tai_priority = {\n\t\tfactor = 1\n\t}\n\tlocalization = holy_order\n}"@
}

pub open spec fn fervor_text(key: Seq<char>) -> Seq<char> {
    key + " = {\n\tcost = 8\n\tpotential = {\n\t}\n\ttrigger = {\n\t}\n\teffect = {\n\t\tglobal_trade_power = 0.1\n\t}\n\tai_will_do = {\n\t\tfactor = 1\n\t}\n}"@
}

pub open spec fn isolationism_text(key: Seq<char>) -> Seq<char> {
    key + " = {\n\tisolation_value = 0\n\tmodifier = {\n\t\ttechnology_cost = -0.05\n\t}\n}"@
}

pub open spec fn golden_bull_text(key: Seq<char>) -> Seq<char> {
    key + " = {\n\tmodifier = {\n\t\tae_impact = -0.1\n\t}\n\tpotential = {\n\t}\n\ttrigger = {\n\t\tis_papal_controller = yes\n\t}\n\tai_will_do = {\n\t\tfactor = 0\n\t}\n}"@
}

pub open spec fn religious_reform_text(key: Seq<char>) -> Seq<char> {
    key + " = {\n\ttrigger = {\n\t\talways = no\n\t}\n\tcan_buy_idea = {\n\t\talways = yes\n\t}\n\t"@ + key + "_1 = {\n\t\twar_exhaustion = -0.05\n\t}\n\t"@ + key + "_2 = {\n\t\tdiplomatic_upkeep = 1\n\t}\n\tai_will_do = {\n\t\tfactor = 1\n\t}\n}"@
}

pub open spec fn incident_text(key: Seq<char>) -> Seq<char> {
    key + " = {\n\tframe = 1\n\tvariable_initial = 0\n\tpotential = {\n\t\treligion = shinto\n\t}\n\ttrigger = {\n\t\talways = no\n\t}\n\tmean_time_to_happen = {\n\t\tmonths = 200\n\t}\n\timmediate_effect = {\n\t\tset_country_flag = active_incident_flag\n\t}\n}"@
}

pub open spec fn school_text(key: Seq<char>) -> Seq<char> {
    key + " = {\n\tpotential_invite_scholar = {\n\t\talways = yes\n\t}\n\tcan_invite_scholar = {\n\t\tadm_power_cost = 50\n\t}\n\ton_invite_scholar = {\n\t\tadm_power_cost = 50\n\t}\n\tpicture = \"GFX_icon_muslim_school_hanafi\"\n\tadm_tech_cost_modifier = -0.05\n}"@
}

pub open spec fn government_reform_text(key: Seq<char>) -> Seq<char> {
    key + " = {\n\ticon = \"crown\"\n\tallow_normal_conversion = yes\n\tlegacy_government = no\n\tvalid_for_new_country = yes\n\tvalid_for_nation_designer = yes\n\tnation_designer_cost = 0\n\tmonarchy = yes\n\tpotential = {\n\t\talways = yes\n\t}\n\ttrigger = {\n\t\talways = yes\n\t}\n\tmodifiers = {\n\t\tglobal_unrest = -1\n\t}\n\tai = {\n\t\tfactor = 1\n\t}\n}"@
}

pub open spec fn building_text(key: Seq<char>) -> Seq<char> {
    key + " = {\n\tcost = 100\n\ttime = 12\n\tmodifier = {\n\t\tlocal_defensiveness = 0.1\n\t}\n\ton_built = {\n\t}\n\ton_destroyed = {\n\t}\n\ton_obsolete = {\n\t}\n\tai_will_do = {\n\t\tfactor = 1\n\t}\n}"@
}

pub open spec fn institution_text(key: Seq<char>) -> Seq<char> {
    key + " = {\n\tbonus = {\n\t\tdevelopment_cost = -0.05\n\t}\n\ttrade_company_efficiency = 0.2\n\thistorical_start_date = 1500.1.1\n\thistorical_start_province = 1\n\thistory = {\n\t\tis_year = 1500\n\t}\n\tcan_start = {\n\t\tis_year = 1500\n\t}\n\tstart_chance = 5\n\tcan_embrace = {\n\t\talways = yes\n\t}\n\tembracement_speed = {\n\t\tmodifier = {\n\t\t\tfactor = 1\n\t\t\talways = yes\n\t\t}\n\t}\n\tai_will_do = {\n\t\tfactor = 1\n\t}\n}"@
}

pub open spec fn government_text(key: Seq<char>) -> Seq<char> {
    key + " = {\n\tcolor = { 100 100 100 }\n\tbasic_reform = monarchy_mechanic\n\tlegacy_government = {\n\t\tdespotic_monarchy\n\t}\n\treform_levels = {\n\t\tbasic_reforms = {\n\t\t\treforms = {\n\t\t\t\tfeudalism_reform\n\t\t\t}\n\t\t}\n\t}\n}"@
}

pub open spec fn subject_type_text(key: Seq<char>) -> Seq<char> {
    key + " = {\n\tcopy_from = vassal\n\tsprite = GFX_icon_vassal\n\tis_potential_overlord = {\n\t\talways = no\n\t}\n\trelative_power_class = 1\n\tjoins_overlords_wars = yes\n\tcan_be_annexed = yes\n\tmodifier_subject = {\n\t\tland_morale = -0.1\n\t}\n}"@
}

pub open spec fn subject_type_upgrade_text(key: Seq<char>) -> Seq<char> {
    key + " = {\n\tcan_upgrade_trigger = {\n\t\tis_subject_of_type = vassal\n\t}\n\tcost = 100\n\teffect = {\n\t\tadd_adm_power = -25\n\t}\n\tremoved_effect = {\n\t}\n\tmodifier_overlord = {\n\t\tland_forcelimit = 5\n\t}\n\tmodifier_subject = {\n\t\tliberty_desire = 10\n\t}\n}"@
}

pub open spec fn cb_type_text(key: Seq<char>) -> Seq<char> {
    key + " = {\n\tvalid_for_subject = no\n\tis_triggered_only = yes\n\tmonths = 120\n\tprerequisites = {\n\t\tFROM = { is_subject = no }\n\t}\n\tprerequisites_self = {\n\t\tis_subject = no\n\t}\n\twar_goal = take_claim\n}"@
}

pub open spec fn wargoal_type_text(key: Seq<char>) -> Seq<char> {
    key + " = {\n\ttype = take_province\n\twar_name = ACQUIRE_WARNAME\n\tallowed_provinces = {\n\t\tis_claim = yes\n\t}\n\tattacker = {\n\t\tbadboy_factor = 1\n\t\tprestige_factor = 1\n\t\tpeace_cost_factor = 1\n\t\tpeace_options = {\n\t\t\tpo_demand_provinces\n\t\t}\n\t}\n\tdefender = {\n\t\tbadboy_factor = 1\n\t\tprestige_factor = 1\n\t\tpeace_cost_factor = 1\n\t\tpeace_options = {\n\t\t\tpo_demand_provinces\n\t\t}\n\t}\n}"@
}

pub open spec fn peace_treaty_text(key: Seq<char>) -> Seq<char> {
    key + " = {\n\tcategory = 6\n\tpower_cost_base = 1.0\n\tprestige_base = 0.1\n\tae_base = 1.0\n\twarscore_cost = {\n\t\tno_provinces = 20.0\n\t}\n\twarscore_cap = -1\n\tis_visible = {\n\t\talways = yes\n\t}\n\tis_allowed = {\n\t\talways = yes\n\t}\n\teffect = {\n\t}\n\tai_weight = {\n\t\texport_to_variable = {\n\t\t\tvariable_name = ai_value\n\t\t\tvalue = 0\n\t\t}\n\t}\n}"@
}

pub open spec fn policy_text(key: Seq<char>) -> Seq<char> {
    key + " = {\n\tmonarch_power = ADM\n\tpotential = {\n\t\thas_idea_group = aristocracy_ideas\n\t}\n\tallow = {\n\t\tfull_idea_group = aristocracy_ideas\n\t}\n\tglobal_tax_modifier = 0.1\n\teffect = {\n\t}\n\tremoved_effect = {\n\t}\n\tai_will_do = {\n\t\tfactor = 1\n\t}\n}"@
}

pub open spec fn powerprojection_text(key: Seq<char>) -> Seq<char> {
    key + " = {\n\tpower = 10\n\tmax = 25\n}"@
}

pub open spec fn idea_group_text(key: Seq<char>) -> Seq<char> {
    key + " = {\n\tcategory = ADM\n\tstart = {\n\t\tglobal_tax_modifier = 0.1\n\t}\n\tbonus = {\n\t\tland_morale = 0.1\n\t}\n\ttrigger = {\n\t\talways = yes\n\t}\n\tfree = yes\n\t"@ + key + "_idea_1 = {\n\t\tglobal_unrest = -1\n\t}\n\t"@ + key + "_idea_2 = {\n\t\tdevelopment_cost = -0.05\n\t}\n\tai_will_do = {\n\t\tfactor = 1\n\t}\n}"@
}

pub open spec fn advisortype_text(key: Seq<char>) -> Seq<char> {
    key + " = {\n\tmonarch_power = ADM\n\tprestige = 1\n\tai_will_do = {\n\t\tfactor = 1\n\t}\n}"@
}

pub open spec fn ruler_personality_text(key: Seq<char>) -> Seq<char> {
    key + " = {\n\truler_allow = {\n\t\tchance = {\n\t\t\tmodifier = {\n\t\t\t\tfactor = 1\n\t\t\t\tADM = 4\n\t\t\t}\n\t\t}\n\t}\n\their_allow = {\n\t\tchance = {\n\t\t\tmodifier = {\n\t\t\t\tfactor = 1\n\t\t\t\their_ADM = 4\n\t\t\t}\n\t\t}\n\t}\n\tglobal_unrest = -1\n\tnation_designer_cost = 2\n}"@
}

pub open spec fn leader_personality_text(key: Seq<char>) -> Seq<char> {
    key + " = {\n\tallow = {\n\t\tis_admiral = no\n\t}\n\tland_morale = 0.05\n}"@
}

pub open spec fn flat_modifier_text(key: Seq<char>) -> Seq<char> {
    key + " = {\n\tglobal_tax_modifier = 0.1\n}"@
}

pub open spec fn opinion_modifier_text(key: Seq<char>) -> Seq<char> {
    key + " = {\n\topinion = 25\n\tyearly_decay = 1\n}"@
}

pub open spec fn triggered_modifier_text(key: Seq<char>) -> Seq<char> {
    key + " = {\n\tpotential = {\n\t\talways = no\n\t}\n\ttrigger = {\n\t\talways = no\n\t}\n\ttrade_efficiency = 0.05\n}"@
}

pub open spec fn age_text(key: Seq<char>) -> Seq<char> {
    key + " = {\n\tstart = 1500\n\tcan_start = {\n\t\talways = no\n\t}\n\tpapacy = 1.0\n\treligious_conflicts = yes\n\tobjectives = {\n\t\t"@ + key + "_obj_1 = {\n\t\t\talways = yes\n\t\t}\n\t}\n\tabilities = {\n\t\t"@ + key + "_ab_1 = {\n\t\t\tmodifier = {\n\t\t\t\tnum_of_age_rewards = 1\n\t\t\t}\n\t\t\tai_will_do = {\n\t\t\t\tfactor = 10\n\t\t\t}\n\t\t}\n\t}\n}"@
}

pub open spec fn hegemon_text(key: Seq<char>) -> Seq<char> {
    key + " = {\n\tallow = {\n\t\tis_great_power = yes\n\t}\n\tbase = {\n\t\twar_exhaustion = -0.1\n\t}\n\tscale = {\n\t\tglobal_trade_goods_size_modifier = 0.25\n\t}\n\tmax = {\n\t\tgoverning_capacity_modifier = 0.2\n\t}\n}"@
}

pub open spec fn government_rank_text(key: Seq<char>) -> Seq<char> {
    key + " = {\n\tgoverning_capacity = 200\n\tglobal_autonomy = -0.025\n}"@
}

pub open spec fn state_edict_text(key: Seq<char>) -> Seq<char> {
    key + " = {\n\tpotential = {\n\t\talways = yes\n\t}\n\tallow = {\n\t\talways = yes\n\t}\n\tmodifier = {\n\t\tlocal_autonomy = -0.03\n\t}\n\tcolor = { 160 120 90 }\n\tai_will_do = {\n\t\tfactor = 1\n\t}\n}"@
}

pub open spec fn natives_text(key: Seq<char>) -> Seq<char> {
    key + " = {\n\tgraphical_culture = northamericagfx\n\tcolor = { 0 255 0 }\n\ticon = 1\n\tunit = native_indian_archer\n\tprovinces = {\n\t}\n}"@
}

pub open spec fn trading_policy_text(key: Seq<char>) -> Seq<char> {
    key + " = {\n\tpotential = {\n\t\talways = yes\n\t}\n\tcan_select = {\n\t\talways = yes\n\t}\n\ttrade_power = {\n\t\tduration = -1\n\t\tpower_modifier = 0.05\n\t\tkey = "@ + key + "\n\t}\n\tcenter_of_reformation = no\n\tbutton_gfx = GFX_Trading_Policy_Max_Profit\n\tcooldown = no\n}"@
}

pub open spec fn tradecompany_investment_text(key: Seq<char>) -> Seq<char> {
    key + " = {\n\tcategory = company_garrison\n\tsprite = \"GFX_investment_local_quarter\"\n\tcost = 200.0\n\tcompany_province_area_modifier = {\n\t\tlocal_defensiveness = 0.15\n\t}\n\tai_global_worth = {\n\t\tfactor = 0\n\t}\n\tai_area_worth = {\n\t\tfactor = 1\n\t}\n\tai_region_worth = {\n\t\tfactor = 0\n\t}\n}"@
}

pub open spec fn center_of_trade_text(key: Seq<char>) -> Seq<char> {
    key + " = {\n\tlevel = 1\n\ttype = coastal\n\tprovince_modifiers = {\n\t\tprovince_trade_power_value = 5\n\t}\n}"@
}

pub open spec fn naval_doctrine_text(key: Seq<char>) -> Seq<char> {
    key + " = {\n\tcan_select = {\n\t\tis_primitive = no\n\t}\n\tcost = 0.1\n\tcountry_modifier = {\n\t\tnaval_maintenance_modifier = -0.1\n\t}\n\teffect = {\n\t}\n\tremoved_effect = {\n\t}\n\tbutton_gfx = 1\n}"@
}

pub open spec fn professionalism_text(key: Seq<char>) -> Seq<char> {
    key + " = {\n\tarmy_professionalism = 0.2\n\tmarker_sprite = GFX_pa_rank_1\n\tunit_sprite_start = \"GFX_ap2_\"\n\ttrigger = {\n\t\talways = yes\n\t}\n\tmay_build_supply_depot = yes\n}"@
}

pub open spec fn flagship_modification_text(key: Seq<char>) -> Seq<char> {
    key + " = {\n\ttrigger = {\n\t\talways = yes\n\t}\n\tmodifier = {\n\t\tflagship_durability = 1\n\t}\n\tai_trade_score = {\n\t\tfactor = 1\n\t}\n\tai_war_score = {\n\t\tfactor = 1\n\t}\n}"@
}

pub open spec fn custom_ideas_text(key: Seq<char>) -> Seq<char> {
    key + " = {\n\tcategory = ADM\n\tcustom_idea_"@ + key + "_1 = {\n\t\tglobal_tax_modifier = 0.05\n\t\tlevel_cost_2 = 3\n\t\tlevel_cost_3 = 9\n\t\tlevel_cost_4 = 18\n\t\tdefault = 2\n\t\tchance = {\n\t\t\tfactor = 1\n\t\t}\n\t}\n}"@
}

pub open spec fn ai_personality_text(key: Seq<char>) -> Seq<char> {
    key + " = {\n\tchance = {\n\t\tfactor = 0\n\t}\n\ticon = 1\n}"@
}

pub open spec fn insult_text(key: Seq<char>) -> Seq<char> {
    key + " = {\n\ttrigger = {\n\t\talways = yes\n\t}\n}"@
}

pub open spec fn imperial_reform_min_text(key: Seq<char>) -> Seq<char> {
    key + " = {\n\tempire = hre\n\tpotential = {\n\t\talways = yes\n\t}\n\temperor = {\n\t\timperial_authority_value = 1\n\t}\n}"@
}

pub open spec fn imperial_incident_text(key: Seq<char>) -> Seq<char> {
    key + " = {\n\tevent = "@ + key + ".1\n\tdefault_option = 0\n\tcan_stop = {\n\t\talways = no\n\t}\n\t0 = {\n\t\tfactor = 1\n\t}\n\t1 = {\n\t\tfactor = 1\n\t}\n}"@
}

pub open spec fn decree_text(key: Seq<char>) -> Seq<char> {
    key + " = {\n\tcost = 20\n\tduration = 3650\n\tpotential = {\n\t\talways = yes\n\t}\n\ttrigger = {\n\t}\n\tmodifier = {\n\t\tdevelopment_cost = -0.1\n\t}\n\teffect = {\n\t}\n\tremoved_effect = {\n\t}\n\tai_will_do = {\n\t\tfactor = 10\n\t}\n}"@
}


fn scaffold_disaster(key: &str) -> (s: String)
    ensures
        s@ == disaster_text(key@),
{
    let mut s = String::from_str(key);
    s.append(" = {\n\tpotential = {\n\t\talways = no\n\t}\n\tcan_start = {\n\t\talways = no\n\t}\n\tcan_stop = {\n\t\talways = yes\n\t}\n\tprogress = {\n\t\tmodifier = {\n\t\t\tfactor = 1\n\t\t\talways = yes\n\t\t}\n\t}\n\tcan_end = {\n\t\talways = yes\n\t}\n\tmodifier = {\n\t\tglobal_unrest = 1\n\t}\n\ton_start = ");
    s.append(key);
    s.append(".1\n\ton_end = ");
    s.append(key);
    s.append(".2\n\ton_monthly = {\n\t\tevents = {\n\t\t}\n\t}\n}");
    s
}

fn scaffold_parliament_issue(key: &str) -> (s: String)
    ensures
        s@ == parliament_issue_text(key@),
{
    let mut s = String::from_str(key);
    s.append(" = {\n\tcategory = 3\n\tallow = {\n\t\talways = yes\n\t}\n\teffect = {\n\t\tadd_stability_or_adm_power = yes\n\t}\n\tai_will_do = {\n\t\tfactor = 1\n\t}\n}");
    s
}

fn scaffold_parliament_bribe(key: &str) -> (s: String)
    ensures
        s@ == parliament_bribe_text(key@),
{
    let mut s = String::from_str(key);
    s.append(" = {\n\ttrigger = {\n\t\thas_reached_seat_threshold = no\n\t}\n\teffect = {\n\t\tadd_prestige = 5\n\t}\n\tai_will_do = {\n\t\tfactor = 1\n\t}\n}");
    s
}

fn scaffold_faction(key: &str) -> (s: String)
    ensures
        s@ == faction_text(key@),
{
    let mut s = String::from_str(key);
    s.append(" = {\n\tmonarch_power = ADM\n\talways = yes\n\tmodifier = {\n\t\tglobal_tax_modifier = 0.1\n\t}\n}");
    s
}

fn scaffold_deity(key: &str) -> (s: String)
    ensures
        s@ == deity_text(key@),
{
    let mut s = String::from_str(key);
    s.append(" = {\n\tglobal_tax_modifier = 0.1\n\tpotential = {\n\t}\n\ttrigger = {\n\t}\n\tsprite = 1\n\teffect = {\n\t}\n\tremoved_effect = {\n\t}\n\tai_will_do = {\n\t\tfactor = 1\n\t}\n}");
    s
}

fn scaffold_church_aspect(key: &str) -> (s: String)
    ensures
        s@ == church_aspect_text(key@),
{
    let mut s = String::from_str(key);
    s.append(" = {\n\tcost = 100\n\teffect = {\n\t\tadd_prestige = 5\n\t}\n\tmodifier = {\n\t\tdevelopment_cost = -0.05\n\t}\n\tai_will_do = {\n\t\tfactor = 1\n\t}\n}");
    s
}

fn scaffold_cult(key: &str) -> (s: String)
    ensures
        s@ == cult_text(key@),
{
    let mut s = String::from_str(key);
    s.append(" = {\n\tland_attrition = -0.15\n\tallow = {\n\t\treligion = shamanism\n\t}\n\tsprite = 1\n\tai_will_do = {\n\t\tfactor = 1\n\t}\n}");
    s
}

fn scaffold_holy_order(key: &str) -> (s: String)
    ensures
        s@ == holy_order_text(key@),
{
    let mut s = String::from_str(key);
    s.append(" = {\n\ticon = GFX_holy_order_benedictines\n\ttrigger = {\n\t\treligion_group = christian\n\t}\n\tcolor = { 140 150 120 }\n\tcost = 50\n\tcost_type = adm_power\n\tper_province_effect = {\n\t\tadd_base_tax = 1\n\t}\n\tper_province_abandon_effect = {\n\t\tadd_base_tax = -1\n\t}\n\tmodifier = {\n\t\tlocal_unrest = -1\n\t}\n\tai_priority = {\n\t\tfactor = 1\n\t}\n\tlocalization = holy_order\n}");
    s
}

fn scaffold_fervor(key: &str) -> (s: String)
    ensures
        s@ == fervor_text(key@),
{
    let mut s = String::from_str(key);
    s.append(" = {\n\tcost = 8\n\tpotential = {\n\t}\n\ttrigger = {\n\t}\n\teffect = {\n\t\tglobal_trade_power = 0.1\n\t}\n\tai_will_do = {\n\t\tfactor = 1\n\t}\n}");
    s
}

fn scaffold_isolationism(key: &str) -> (s: String)
    ensures
        s@ == isolationism_text(key@),
{
    let mut s = String::from_str(key);
    s.append(" = {\n\tisolation_value = 0\n\tmodifier = {\n\t\ttechnology_cost = -0.05\n\t}\n}");
    s
}

fn scaffold_golden_bull(key: &str) -> (s: String)
    ensures
        s@ == golden_bull_text(key@),
{
    let mut s = String::from_str(key);
    s.append(" = {\n\tmodifier = {\n\t\tae_impact = -0.1\n\t}\n\tpotential = {\n\t}\n\ttrigger = {\n\t\tis_papal_controller = yes\n\t}\n\tai_will_do = {\n\t\tfactor = 0\n\t}\n}");
    s
}

fn scaffold_religious_reform(key: &str) -> (s: String)
    ensures
        s@ == religious_reform_text(key@),
{
    let mut s = String::from_str(key);
    s.append(" = {\n\ttrigger = {\n\t\talways = no\n\t}\n\tcan_buy_idea = {\n\t\talways = yes\n\t}\n\t");
    s.append(key);
    s.append("_1 = {\n\t\twar_exhaustion = -0.05\n\t}\n\t");
    s.append(key);
    s.append("_2 = {\n\t\tdiplomatic_upkeep = 1\n\t}\n\tai_will_do = {\n\t\tfactor = 1\n\t}\n}");
    s
}

fn scaffold_incident(key: &str) -> (s: String)
    ensures
        s@ == incident_text(key@),
{
    let mut s = String::from_str(key);
    s.append(" = {\n\tframe = 1\n\tvariable_initial = 0\n\tpotential = {\n\t\treligion = shinto\n\t}\n\ttrigger = {\n\t\talways = no\n\t}\n\tmean_time_to_happen = {\n\t\tmonths = 200\n\t}\n\timmediate_effect = {\n\t\tset_country_flag = active_incident_flag\n\t}\n}");
    s
}

fn scaffold_school(key: &str) -> (s: String)
    ensures
        s@ == school_text(key@),
{
    let mut s = String::from_str(key);
    s.append(" = {\n\tpotential_invite_scholar = {\n\t\talways = yes\n\t}\n\tcan_invite_scholar = {\n\t\tadm_power_cost = 50\n\t}\n\ton_invite_scholar = {\n\t\tadm_power_cost = 50\n\t}\n\tpicture = \"GFX_icon_muslim_school_hanafi\"\n\tadm_tech_cost_modifier = -0.05\n}");
    s
}

fn scaffold_government_reform(key: &str) -> (s: String)
    ensures
        s@ == government_reform_text(key@),
{
    let mut s = String::from_str(key);
    s.append(" = {\n\ticon = \"crown\"\n\tallow_normal_conversion = yes\n\tlegacy_government = no\n\tvalid_for_new_country = yes\n\tvalid_for_nation_designer = yes\n\tnation_designer_cost = 0\n\tmonarchy = yes\n\tpotential = {\n\t\talways = yes\n\t}\n\ttrigger = {\n\t\talways = yes\n\t}\n\tmodifiers = {\n\t\tglobal_unrest = -1\n\t}\n\tai = {\n\t\tfactor = 1\n\t}\n}");
    s
}

fn scaffold_building(key: &str) -> (s: String)
    ensures
        s@ == building_text(key@),
{
    let mut s = String::from_str(key);
    s.append(" = {\n\tcost = 100\n\ttime = 12\n\tmodifier = {\n\t\tlocal_defensiveness = 0.1\n\t}\n\ton_built = {\n\t}\n\ton_destroyed = {\n\t}\n\ton_obsolete = {\n\t}\n\tai_will_do = {\n\t\tfactor = 1\n\t}\n}");
    s
}

fn scaffold_institution(key: &str) -> (s: String)
    ensures
        s@ == institution_text(key@),
{
    let mut s = String::from_str(key);
    s.append(" = {\n\tbonus = {\n\t\tdevelopment_cost = -0.05\n\t}\n\ttrade_company_efficiency = 0.2\n\thistorical_start_date = 1500.1.1\n\thistorical_start_province = 1\n\thistory = {\n\t\tis_year = 1500\n\t}\n\tcan_start = {\n\t\tis_year = 1500\n\t}\n\tstart_chance = 5\n\tcan_embrace = {\n\t\talways = yes\n\t}\n\tembracement_speed = {\n\t\tmodifier = {\n\t\t\tfactor = 1\n\t\t\talways = yes\n\t\t}\n\t}\n\tai_will_do = {\n\t\tfactor = 1\n\t}\n}");
    s
}

fn scaffold_government(key: &str) -> (s: String)
    ensures
        s@ == government_text(key@),
{
    let mut s = String::from_str(key);
    s.append(" = {\n\tcolor = { 100 100 100 }\n\tbasic_reform = monarchy_mechanic\n\tlegacy_government = {\n\t\tdespotic_monarchy\n\t}\n\treform_levels = {\n\t\tbasic_reforms = {\n\t\t\treforms = {\n\t\t\t\tfeudalism_reform\n\t\t\t}\n\t\t}\n\t}\n}");
    s
}

fn scaffold_subject_type(key: &str) -> (s: String)
    ensures
        s@ == subject_type_text(key@),
{
    let mut s = String::from_str(key);
    s.append(" = {\n\tcopy_from = vassal\n\tsprite = GFX_icon_vassal\n\tis_potential_overlord = {\n\t\talways = no\n\t}\n\trelative_power_class = 1\n\tjoins_overlords_wars = yes\n\tcan_be_annexed = yes\n\tmodifier_subject = {\n\t\tland_morale = -0.1\n\t}\n}");
    s
}

fn scaffold_subject_type_upgrade(key: &str) -> (s: String)
    ensures
        s@ == subject_type_upgrade_text(key@),
{
    let mut s = String::from_str(key);
    s.append(" = {\n\tcan_upgrade_trigger = {\n\t\tis_subject_of_type = vassal\n\t}\n\tcost = 100\n\teffect = {\n\t\tadd_adm_power = -25\n\t}\n\tremoved_effect = {\n\t}\n\tmodifier_overlord = {\n\t\tland_forcelimit = 5\n\t}\n\tmodifier_subject = {\n\t\tliberty_desire = 10\n\t}\n}");
    s
}

fn scaffold_cb_type(key: &str) -> (s: String)
    ensures
        s@ == cb_type_text(key@),
{
    let mut s = String::from_str(key);
    s.append(" = {\n\tvalid_for_subject = no\n\tis_triggered_only = yes\n\tmonths = 120\n\tprerequisites = {\n\t\tFROM = { is_subject = no }\n\t}\n\tprerequisites_self = {\n\t\tis_subject = no\n\t}\n\twar_goal = take_claim\n}");
    s
}

fn scaffold_wargoal_type(key: &str) -> (s: String)
    ensures
        s@ == wargoal_type_text(key@),
{
    let mut s = String::from_str(key);
    s.append(" = {\n\ttype = take_province\n\twar_name = ACQUIRE_WARNAME\n\tallowed_provinces = {\n\t\tis_claim = yes\n\t}\n\tattacker = {\n\t\tbadboy_factor = 1\n\t\tprestige_factor = 1\n\t\tpeace_cost_factor = 1\n\t\tpeace_options = {\n\t\t\tpo_demand_provinces\n\t\t}\n\t}\n\tdefender = {\n\t\tbadboy_factor = 1\n\t\tprestige_factor = 1\n\t\tpeace_cost_factor = 1\n\t\tpeace_options = {\n\t\t\tpo_demand_provinces\n\t\t}\n\t}\n}");
    s
}

fn scaffold_peace_treaty(key: &str) -> (s: String)
    ensures
        s@ == peace_treaty_text(key@),
{
    let mut s = String::from_str(key);
    s.append(" = {\n\tcategory = 6\n\tpower_cost_base = 1.0\n\tprestige_base = 0.1\n\tae_base = 1.0\n\twarscore_cost = {\n\t\tno_provinces = 20.0\n\t}\n\twarscore_cap = -1\n\tis_visible = {\n\t\talways = yes\n\t}\n\tis_allowed = {\n\t\talways = yes\n\t}\n\teffect = {\n\t}\n\tai_weight = {\n\t\texport_to_variable = {\n\t\t\tvariable_name = ai_value\n\t\t\tvalue = 0\n\t\t}\n\t}\n}");
    s
}

fn scaffold_policy(key: &str) -> (s: String)
    ensures
        s@ == policy_text(key@),
{
    let mut s = String::from_str(key);
    s.append(" = {\n\tmonarch_power = ADM\n\tpotential = {\n\t\thas_idea_group = aristocracy_ideas\n\t}\n\tallow = {\n\t\tfull_idea_group = aristocracy_ideas\n\t}\n\tglobal_tax_modifier = 0.1\n\teffect = {\n\t}\n\tremoved_effect = {\n\t}\n\tai_will_do = {\n\t\tfactor = 1\n\t}\n}");
    s
}

fn scaffold_powerprojection(key: &str) -> (s: String)
    ensures
        s@ == powerprojection_text(key@),
{
    let mut s = String::from_str(key);
    s.append(" = {\n\tpower = 10\n\tmax = 25\n}");
    s
}

fn scaffold_idea_group(key: &str) -> (s: String)
    ensures
        s@ == idea_group_text(key@),
{
    let mut s = String::from_str(key);
    s.append(" = {\n\tcategory = ADM\n\tstart = {\n\t\tglobal_tax_modifier = 0.1\n\t}\n\tbonus = {\n\t\tland_morale = 0.1\n\t}\n\ttrigger = {\n\t\talways = yes\n\t}\n\tfree = yes\n\t");
    s.append(key);
    s.append("_idea_1 = {\n\t\tglobal_unrest = -1\n\t}\n\t");
    s.append(key);
    s.append("_idea_2 = {\n\t\tdevelopment_cost = -0.05\n\t}\n\tai_will_do = {\n\t\tfactor = 1\n\t}\n}");
    s
}

fn scaffold_advisortype(key: &str) -> (s: String)
    ensures
        s@ == advisortype_text(key@),
{
    let mut s = String::from_str(key);
    s.append(" = {\n\tmonarch_power = ADM\n\tprestige = 1\n\tai_will_do = {\n\t\tfactor = 1\n\t}\n}");
    s
}

fn scaffold_ruler_personality(key: &str) -> (s: String)
    ensures
        s@ == ruler_personality_text(key@),
{
    let mut s = String::from_str(key);
    s.append(" = {\n\truler_allow = {\n\t\tchance = {\n\t\t\tmodifier = {\n\t\t\t\tfactor = 1\n\t\t\t\tADM = 4\n\t\t\t}\n\t\t}\n\t}\n\their_allow = {\n\t\tchance = {\n\t\t\tmodifier = {\n\t\t\t\tfactor = 1\n\t\t\t\their_ADM = 4\n\t\t\t}\n\t\t}\n\t}\n\tglobal_unrest = -1\n\tnation_designer_cost = 2\n}");
    s
}

fn scaffold_leader_personality(key: &str) -> (s: String)
    ensures
        s@ == leader_personality_text(key@),
{
    let mut s = String::from_str(key);
    s.append(" = {\n\tallow = {\n\t\tis_admiral = no\n\t}\n\tland_morale = 0.05\n}");
    s
}

fn scaffold_flat_modifier(key: &str) -> (s: String)
    ensures
        s@ == flat_modifier_text(key@),
{
    let mut s = String::from_str(key);
    s.append(" = {\n\tglobal_tax_modifier = 0.1\n}");
    s
}

fn scaffold_opinion_modifier(key: &str) -> (s: String)
    ensures
        s@ == opinion_modifier_text(key@),
{
    let mut s = String::from_str(key);
    s.append(" = {\n\topinion = 25\n\tyearly_decay = 1\n}");
    s
}

fn scaffold_triggered_modifier(key: &str) -> (s: String)
    ensures
        s@ == triggered_modifier_text(key@),
{
    let mut s = String::from_str(key);
    s.append(" = {\n\tpotential = {\n\t\talways = no\n\t}\n\ttrigger = {\n\t\talways = no\n\t}\n\ttrade_efficiency = 0.05\n}");
    s
}

fn scaffold_age(key: &str) -> (s: String)
    ensures
        s@ == age_text(key@),
{
    let mut s = String::from_str(key);
    s.append(" = {\n\tstart = 1500\n\tcan_start = {\n\t\talways = no\n\t}\n\tpapacy = 1.0\n\treligious_conflicts = yes\n\tobjectives = {\n\t\t");
    s.append(key);
    s.append("_obj_1 = {\n\t\t\talways = yes\n\t\t}\n\t}\n\tabilities = {\n\t\t");
    s.append(key);
    s.append("_ab_1 = {\n\t\t\tmodifier = {\n\t\t\t\tnum_of_age_rewards = 1\n\t\t\t}\n\t\t\tai_will_do = {\n\t\t\t\tfactor = 10\n\t\t\t}\n\t\t}\n\t}\n}");
    s
}

fn scaffold_hegemon(key: &str) -> (s: String)
    ensures
        s@ == hegemon_text(key@),
{
    let mut s = String::from_str(key);
    s.append(" = {\n\tallow = {\n\t\tis_great_power = yes\n\t}\n\tbase = {\n\t\twar_exhaustion = -0.1\n\t}\n\tscale = {\n\t\tglobal_trade_goods_size_modifier = 0.25\n\t}\n\tmax = {\n\t\tgoverning_capacity_modifier = 0.2\n\t}\n}");
    s
}

fn scaffold_government_rank(key: &str) -> (s: String)
    ensures
        s@ == government_rank_text(key@),
{
    let mut s = String::from_str(key);
    s.append(" = {\n\tgoverning_capacity = 200\n\tglobal_autonomy = -0.025\n}");
    s
}

fn scaffold_state_edict(key: &str) -> (s: String)
    ensures
        s@ == state_edict_text(key@),
{
    let mut s = String::from_str(key);
    s.append(" = {\n\tpotential = {\n\t\talways = yes\n\t}\n\tallow = {\n\t\talways = yes\n\t}\n\tmodifier = {\n\t\tlocal_autonomy = -0.03\n\t}\n\tcolor = { 160 120 90 }\n\tai_will_do = {\n\t\tfactor = 1\n\t}\n}");
    s
}

fn scaffold_natives(key: &str) -> (s: String)
    ensures
        s@ == natives_text(key@),
{
    let mut s = String::from_str(key);
    s.append(" = {\n\tgraphical_culture = northamericagfx\n\tcolor = { 0 255 0 }\n\ticon = 1\n\tunit = native_indian_archer\n\tprovinces = {\n\t}\n}");
    s
}

fn scaffold_trading_policy(key: &str) -> (s: String)
    ensures
        s@ == trading_policy_text(key@),
{
    let mut s = String::from_str(key);
    s.append(" = {\n\tpotential = {\n\t\talways = yes\n\t}\n\tcan_select = {\n\t\talways = yes\n\t}\n\ttrade_power = {\n\t\tduration = -1\n\t\tpower_modifier = 0.05\n\t\tkey = ");
    s.append(key);
    s.append("\n\t}\n\tcenter_of_reformation = no\n\tbutton_gfx = GFX_Trading_Policy_Max_Profit\n\tcooldown = no\n}");
    s
}

fn scaffold_tradecompany_investment(key: &str) -> (s: String)
    ensures
        s@ == tradecompany_investment_text(key@),
{
    let mut s = String::from_str(key);
    s.append(" = {\n\tcategory = company_garrison\n\tsprite = \"GFX_investment_local_quarter\"\n\tcost = 200.0\n\tcompany_province_area_modifier = {\n\t\tlocal_defensiveness = 0.15\n\t}\n\tai_global_worth = {\n\t\tfactor = 0\n\t}\n\tai_area_worth = {\n\t\tfactor = 1\n\t}\n\tai_region_worth = {\n\t\tfactor = 0\n\t}\n}");
    s
}

fn scaffold_center_of_trade(key: &str) -> (s: String)
    ensures
        s@ == center_of_trade_text(key@),
{
    let mut s = String::from_str(key);
    s.append(" = {\n\tlevel = 1\n\ttype = coastal\n\tprovince_modifiers = {\n\t\tprovince_trade_power_value = 5\n\t}\n}");
    s
}

fn scaffold_naval_doctrine(key: &str) -> (s: String)
    ensures
        s@ == naval_doctrine_text(key@),
{
    let mut s = String::from_str(key);
    s.append(" = {\n\tcan_select = {\n\t\tis_primitive = no\n\t}\n\tcost = 0.1\n\tcountry_modifier = {\n\t\tnaval_maintenance_modifier = -0.1\n\t}\n\teffect = {\n\t}\n\tremoved_effect = {\n\t}\n\tbutton_gfx = 1\n}");
    s
}

fn scaffold_professionalism(key: &str) -> (s: String)
    ensures
        s@ == professionalism_text(key@),
{
    let mut s = String::from_str(key);
    s.append(" = {\n\tarmy_professionalism = 0.2\n\tmarker_sprite = GFX_pa_rank_1\n\tunit_sprite_start = \"GFX_ap2_\"\n\ttrigger = {\n\t\talways = yes\n\t}\n\tmay_build_supply_depot = yes\n}");
    s
}

fn scaffold_flagship_modification(key: &str) -> (s: String)
    ensures
        s@ == flagship_modification_text(key@),
{
    let mut s = String::from_str(key);
    s.append(" = {\n\ttrigger = {\n\t\talways = yes\n\t}\n\tmodifier = {\n\t\tflagship_durability = 1\n\t}\n\tai_trade_score = {\n\t\tfactor = 1\n\t}\n\tai_war_score = {\n\t\tfactor = 1\n\t}\n}");
    s
}

fn scaffold_custom_ideas(key: &str) -> (s: String)
    ensures
        s@ == custom_ideas_text(key@),
{
    let mut s = String::from_str(key);
    s.append(" = {\n\tcategory = ADM\n\tcustom_idea_");
    s.append(key);
    s.append("_1 = {\n\t\tglobal_tax_modifier = 0.05\n\t\tlevel_cost_2 = 3\n\t\tlevel_cost_3 = 9\n\t\tlevel_cost_4 = 18\n\t\tdefault = 2\n\t\tchance = {\n\t\t\tfactor = 1\n\t\t}\n\t}\n}");
    s
}

fn scaffold_ai_personality(key: &str) -> (s: String)
    ensures
        s@ == ai_personality_text(key@),
{
    let mut s = String::from_str(key);
    s.append(" = {\n\tchance = {\n\t\tfactor = 0\n\t}\n\ticon = 1\n}");
    s
}

fn scaffold_insult(key: &str) -> (s: String)
    ensures
        s@ == insult_text(key@),
{
    let mut s = String::from_str(key);
    s.append(" = {\n\ttrigger = {\n\t\talways = yes\n\t}\n}");
    s
}

fn scaffold_imperial_reform_min(key: &str) -> (s: String)
    ensures
        s@ == imperial_reform_min_text(key@),
{
    let mut s = String::from_str(key);
    s.append(" = {\n\tempire = hre\n\tpotential = {\n\t\talways = yes\n\t}\n\temperor = {\n\t\timperial_authority_value = 1\n\t}\n}");
    s
}

fn scaffold_imperial_incident(key: &str) -> (s: String)
    ensures
        s@ == imperial_incident_text(key@),
{
    let mut s = String::from_str(key);
    s.append(" = {\n\tevent = ");
    s.append(key);
    s.append(".1\n\tdefault_option = 0\n\tcan_stop = {\n\t\talways = no\n\t}\n\t0 = {\n\t\tfactor = 1\n\t}\n\t1 = {\n\t\tfactor = 1\n\t}\n}");
    s
}

fn scaffold_decree(key: &str) -> (s: String)
    ensures
        s@ == decree_text(key@),
{
    let mut s = String::from_str(key);
    s.append(" = {\n\tcost = 20\n\tduration = 3650\n\tpotential = {\n\t\talways = yes\n\t}\n\ttrigger = {\n\t}\n\tmodifier = {\n\t\tdevelopment_cost = -0.1\n\t}\n\teffect = {\n\t}\n\tremoved_effect = {\n\t}\n\tai_will_do = {\n\t\tfactor = 10\n\t}\n}");
    s
}


/// The scaffold text of the `k`-th family for a new entity `key`.
pub open spec fn family_scaffold_text(k: int, key: Seq<char>) -> Seq<char> {
    if k == 0 {
        disaster_text(key)
    } else if k == 1 {
        parliament_issue_text(key)
    } else if k == 2 {
        parliament_bribe_text(key)
    } else if k == 3 {
        faction_text(key)
    } else if k == 4 {
        deity_text(key)
    } else if k == 5 {
        church_aspect_text(key)
    } else if k == 6 {
        cult_text(key)
    } else if k == 7 {
        holy_order_text(key)
    } else if k == 8 {
        fervor_text(key)
    } else if k == 9 {
        isolationism_text(key)
    } else if k == 10 {
        golden_bull_text(key)
    } else if k == 11 {
        religious_reform_text(key)
    } else if k == 12 {
        incident_text(key)
    } else if k == 13 {
        school_text(key)
    } else if k == 14 {
        government_reform_text(key)
    } else if k == 15 {
        building_text(key)
    } else if k == 16 {
        institution_text(key)
    } else if k == 17 {
        government_text(key)
    } else if k == 18 {
        subject_type_text(key)
    } else if k == 19 {
        subject_type_upgrade_text(key)
    } else if k == 20 {
        cb_type_text(key)
    } else if k == 21 {
        wargoal_type_text(key)
    } else if k == 22 {
        peace_treaty_text(key)
    } else if k == 23 {
        policy_text(key)
    } else if k == 24 {
        powerprojection_text(key)
    } else if k == 25 {
        idea_group_text(key)
    } else if k == 26 {
        advisortype_text(key)
    } else if k == 27 {
        ruler_personality_text(key)
    } else if k == 28 {
        leader_personality_text(key)
    } else if k == 29 {
        flat_modifier_text(key)
    } else if k == 30 {
        opinion_modifier_text(key)
    } else if k == 31 {
        flat_modifier_text(key)
    } else if k == 32 {
        triggered_modifier_text(key)
    } else if k == 33 {
        age_text(key)
    } else if k == 34 {
        hegemon_text(key)
    } else if k == 35 {
        government_rank_text(key)
    } else if k == 36 {
        state_edict_text(key)
    } else if k == 37 {
        natives_text(key)
    } else if k == 38 {
        trading_policy_text(key)
    } else if k == 39 {
        tradecompany_investment_text(key)
    } else if k == 40 {
        center_of_trade_text(key)
    } else if k == 41 {
        naval_doctrine_text(key)
    } else if k == 42 {
        professionalism_text(key)
    } else if k == 43 {
        flagship_modification_text(key)
    } else if k == 44 {
        custom_ideas_text(key)
    } else if k == 45 {
        ai_personality_text(key)
    } else if k == 46 {
        insult_text(key)
    } else if k == 47 {
        imperial_reform_min_text(key)
    } else if k == 48 {
        imperial_incident_text(key)
    } else if k == 49 {
        decree_text(key)
    } else {
        Seq::empty()
    }
}


fn scaffold_text(k: usize, key: &str) -> (s: String)
    requires
        k < 50,
    ensures
        s@ == family_scaffold_text(k as int, key@),
{
    match k {
        0 => scaffold_disaster(key),
        1 => scaffold_parliament_issue(key),
        2 => scaffold_parliament_bribe(key),
        3 => scaffold_faction(key),
        4 => scaffold_deity(key),
        5 => scaffold_church_aspect(key),
        6 => scaffold_cult(key),
        7 => scaffold_holy_order(key),
        8 => scaffold_fervor(key),
        9 => scaffold_isolationism(key),
        10 => scaffold_golden_bull(key),
        11 => scaffold_religious_reform(key),
        12 => scaffold_incident(key),
        13 => scaffold_school(key),
        14 => scaffold_government_reform(key),
        15 => scaffold_building(key),
        16 => scaffold_institution(key),
        17 => scaffold_government(key),
        18 => scaffold_subject_type(key),
        19 => scaffold_subject_type_upgrade(key),
        20 => scaffold_cb_type(key),
        21 => scaffold_wargoal_type(key),
        22 => scaffold_peace_treaty(key),
        23 => scaffold_policy(key),
        24 => scaffold_powerprojection(key),
        25 => scaffold_idea_group(key),
        26 => scaffold_advisortype(key),
        27 => scaffold_ruler_personality(key),
        28 => scaffold_leader_personality(key),
        29 => scaffold_flat_modifier(key),
        30 => scaffold_opinion_modifier(key),
        31 => scaffold_flat_modifier(key),
        32 => scaffold_triggered_modifier(key),
        33 => scaffold_age(key),
        34 => scaffold_hegemon(key),
        35 => scaffold_government_rank(key),
        36 => scaffold_state_edict(key),
        37 => scaffold_natives(key),
        38 => scaffold_trading_policy(key),
        39 => scaffold_tradecompany_investment(key),
        40 => scaffold_center_of_trade(key),
        41 => scaffold_naval_doctrine(key),
        42 => scaffold_professionalism(key),
        43 => scaffold_flagship_modification(key),
        44 => scaffold_custom_ideas(key),
        45 => scaffold_ai_personality(key),
        46 => scaffold_insult(key),
        47 => scaffold_imperial_reform_min(key),
        48 => scaffold_imperial_incident(key),
        49 => scaffold_decree(key),
        _ => String::new(),
    }
}


/// One loc key to queue with its text.
#[derive(Debug)]
pub struct LocEntry {
    pub key: String,
    pub value: String,
}

/// A create scaffold: the block text, its file, the loc entries to queue,
/// and for buildings/institutions the sprite block to append to `gfx_file`.
#[derive(Debug)]
pub struct Scaffold {
    pub key: String,
    pub file: String,
    pub text: String,
    pub loc_entries: Vec<LocEntry>,
    /// The religion group a group-nested scaffold inserts into.
    pub group: Option<String>,
    pub group_nested: bool,
    pub gfx_file: Option<String>,
    pub gfx_text: Option<String>,
}

/// The spec view of a scaffold.
pub struct ScaffoldView {
    pub key: Seq<char>,
    pub file: Seq<char>,
    pub text: Seq<char>,
    pub loc_entries: Seq<(Seq<char>, Seq<char>)>,
    pub group: Option<Seq<char>>,
    pub group_nested: bool,
    pub gfx_file: Option<Seq<char>>,
    pub gfx_text: Option<Seq<char>>,
}

pub open spec fn scaffold_view(s: Scaffold) -> ScaffoldView {
    ScaffoldView {
        key: s.key@,
        file: s.file@,
        text: s.text@,
        loc_entries: s.loc_entries@.map_values(|e: LocEntry| (e.key@, e.value@)),
        group: opt_view(s.group),
        group_nested: s.group_nested,
        gfx_file: opt_view(s.gfx_file),
        gfx_text: opt_view(s.gfx_text),
    }
}

/// The scaffold of a new entity `key` of the `k`-th family: its block text,
/// the name and desc loc entries (the prettified key, and it with a full
/// stop), and the sprite block when the family emits one.
pub open spec fn scaffold_spec(k: int, key: Seq<char>, group: Option<Seq<char>>) -> ScaffoldView {
    let f = family_table()[k];
    ScaffoldView {
        key,
        file: f.project_file,
        text: family_scaffold_text(k, key),
        loc_entries: seq![(key, prettify_spec(key)), (desc_key_spec(f, key), prettify_spec(key) + "."@)],
        group,
        group_nested: f.group_nested,
        gfx_file: match f.icon_gfx {
            Some(g) => Some(g.0),
            None => None,
        },
        gfx_text: match f.icon_gfx {
            Some(g) => Some(gfx_text(g, key)),
            None => None,
        },
    }
}

/// The error for a family id that is not in the table.
pub open spec fn unknown_family(id: Seq<char>) -> Seq<char> {
    "Unknown mechanics family: "@ + id
}

fn unknown_family_error(id: &str) -> (r: String)
    ensures
        r@ == unknown_family(id@),
{
    let mut s = String::from_str("Unknown mechanics family: ");
    s.append(id);
    s
}

/// The create scaffold of a new entity `key` of `family`; `group` is the
/// religion group a group-nested family inserts into.
#[verifier::spinoff_prover]
#[verifier::rlimit(40)]
pub fn scaffold(family: &str, key: &str, group: Option<&str>) -> (r: Result<Scaffold, String>)
    ensures
        match r {
            Ok(s) => family_pos(family@) matches Some(k) && scaffold_view(s) == scaffold_spec(
                k,
                key@,
                match group {
                    Some(g) => Some(g@),
                    None => None,
                },
            ),
            Err(e) => family_pos(family@) is None && e@ == unknown_family(family@),
        },
{
    let fams = families();
    match family_index(&fams, family) {
        None => Err(unknown_family_error(family)),
        Some(k) => {
            proof {
                lemma_pos_range(family@, 0);
                assert(fams@.len() == families_view(fams@).len());
            }
            let fam = &fams[k];
            assert(families_view(fams@)[k as int] == family_view(fams@[k as int]));
            let text = scaffold_text(k, key);
            let pretty = prettify(key);
            let mut desc = pretty.clone();
            desc.append(".");
            let mut entries: Vec<LocEntry> = Vec::new();
            entries.push(LocEntry { key: key.to_string(), value: pretty });
            entries.push(LocEntry { key: desc_key_of(fam, key), value: desc });
            let (gfx_file, gfx_text) = match &fam.icon_gfx {
                Some(g) => (Some(g.gfx_file.to_string()), Some(gfx_sprite_block(g, key))),
                None => (None, None),
            };
            let s = Scaffold {
                key: key.to_string(),
                file: fam.project_file.to_string(),
                text,
                loc_entries: entries,
                group: match group {
                    Some(g) => Some(g.to_string()),
                    None => None,
                },
                group_nested: fam.group_nested,
                gfx_file,
                gfx_text,
            };
            assert(scaffold_view(s).loc_entries =~= scaffold_spec(k as int, key@, match group {
                Some(g) => Some(g@),
                None => None,
            }).loc_entries);
            Ok(s)
        },
    }
}

// ---------------------------------------------------------------------------
// Sub-entry containers (ages' objectives and abilities)
// ---------------------------------------------------------------------------

/// A container of repeated same-shape children: `container = { child = { … } }`.
/// When `child_is_trigger`, each child's whole body is a trigger tree;
/// otherwise it carries the flat modifier blocks and script blocks listed.
pub struct SubGroup {
    pub container: &'static str,
    pub label: &'static str,
    pub child_is_trigger: bool,
    pub child_modifiers: Vec<&'static str>,
    pub child_scripts: Vec<BlockSpec>,
    /// The minimal child body the add affordance inserts.
    pub child_scaffold: &'static str,
}

/// The spec view of a sub-entry container.
pub struct SubGroupSpec {
    pub container: Seq<char>,
    pub label: Seq<char>,
    pub child_is_trigger: bool,
    pub child_modifiers: Seq<Seq<char>>,
    pub child_scripts: Seq<(Seq<char>, Seq<char>)>,
    pub child_scaffold: Seq<char>,
}

pub open spec fn sub_group_view(g: SubGroup) -> SubGroupSpec {
    SubGroupSpec {
        container: g.container@,
        label: g.label@,
        child_is_trigger: g.child_is_trigger,
        child_modifiers: texts(g.child_modifiers@),
        child_scripts: block_specs_view(g.child_scripts@),
        child_scaffold: g.child_scaffold@,
    }
}

pub open spec fn sub_groups_view(v: Seq<SubGroup>) -> Seq<SubGroupSpec> {
    v.map_values(|g: SubGroup| sub_group_view(g))
}

/// The sub-entry containers of a family: only ages have them.
pub open spec fn sub_groups_spec(id: Seq<char>) -> Seq<SubGroupSpec> {
    if id == "ages"@ {
        seq![
            SubGroupSpec {
                container: "objectives"@,
                label: "Objectives"@,
                child_is_trigger: true,
                child_modifiers: Seq::empty(),
                child_scripts: Seq::empty(),
                child_scaffold: "{\n\t\t\talways = yes\n\t\t}"@,
            },
            SubGroupSpec {
                container: "abilities"@,
                label: "Abilities"@,
                child_is_trigger: false,
                child_modifiers: seq!["modifier"@],
                child_scripts: seq![("effect"@, "effects"@), ("ai_will_do"@, "triggers"@)],
                child_scaffold: "{\n\t\t\tmodifier = {\n\t\t\t\tnum_of_age_rewards = 1\n\t\t\t}\n\t\t\tai_will_do = {\n\t\t\t\tfactor = 10\n\t\t\t}\n\t\t}"@,
            },
        ]
    } else {
        Seq::empty()
    }
}

fn family_sub_groups(id: &str) -> (r: Vec<SubGroup>)
    ensures
        sub_groups_view(r@) == sub_groups_spec(id@),
{
    let mut v: Vec<SubGroup> = Vec::new();
    if str_eq(id, "ages") {
        v.push(SubGroup {
            container: "objectives",
            label: "Objectives",
            child_is_trigger: true,
            child_modifiers: Vec::new(),
            child_scripts: Vec::new(),
            child_scaffold: "{\n\t\t\talways = yes\n\t\t}",
        });
        v.push(SubGroup {
            container: "abilities",
            label: "Abilities",
            child_is_trigger: false,
            child_modifiers: vec!["modifier"],
            child_scripts: vec![
                BlockSpec { name: "effect", registry: "effects" },
                BlockSpec { name: "ai_will_do", registry: "triggers" },
            ],
            child_scaffold: "{\n\t\t\tmodifier = {\n\t\t\t\tnum_of_age_rewards = 1\n\t\t\t}\n\t\t\tai_will_do = {\n\t\t\t\tfactor = 10\n\t\t\t}\n\t\t}",
        });
        assert(texts(v@[0].child_modifiers@) =~= Seq::<Seq<char>>::empty());
        assert(block_specs_view(v@[0].child_scripts@) =~= Seq::<(Seq<char>, Seq<char>)>::empty());
        assert(texts(v@[1].child_modifiers@) =~= seq!["modifier"@]);
        assert(block_specs_view(v@[1].child_scripts@) =~= seq![("effect"@, "effects"@), ("ai_will_do"@, "triggers"@)]);
    }
    assert(sub_groups_view(v@) =~= sub_groups_spec(id@));
    v
}

// ---------------------------------------------------------------------------
// Payload types
// ---------------------------------------------------------------------------

/// One `key = value` row of a modifier block.
#[derive(Debug)]
pub struct ModRow {
    pub key: String,
    pub value: String,
}

/// A flat modifier-style block: present, whether every item is a
/// `key = scalar` row, and those rows.
#[derive(Debug)]
pub struct ModifierBlock {
    pub name: String,
    pub present: bool,
    pub flat: bool,
    pub rows: Vec<ModRow>,
}

/// A script block and whether the entity holds it.
#[derive(Debug)]
pub struct ScriptBlockRef {
    pub name: String,
    pub registry: String,
    pub present: bool,
}

/// A typed scalar of an entity.
#[derive(Debug)]
pub struct Scalar {
    pub key: String,
    pub kind: String,
    pub present: bool,
    pub value: String,
    pub options: Vec<String>,
    pub picker: String,
}

/// A bare-token list field and its tokens.
#[derive(Debug)]
pub struct ListField {
    pub name: String,
    pub present: bool,
    pub picker: String,
    pub tokens: Vec<String>,
}

/// One ordered child modifier block (religious reforms' steps).
#[derive(Debug)]
pub struct ReformStep {
    pub key: String,
    pub flat: bool,
    pub rows: Vec<ModRow>,
}

/// One child of a sub-entry container.
#[derive(Debug)]
pub struct SubEntry {
    pub key: String,
    pub name: String,
    /// Empty when the child is a whole-body trigger.
    pub modifier_blocks: Vec<ModifierBlock>,
    pub script_blocks: Vec<ScriptBlockRef>,
    pub raw_extra: Vec<String>,
    pub raw: String,
}

/// A sub-entry container with its children.
#[derive(Debug)]
pub struct SubGroupData {
    pub container: String,
    pub label: String,
    pub child_is_trigger: bool,
    pub child_modifiers: Vec<String>,
    pub child_scripts: Vec<ScriptBlockRef>,
    pub entries: Vec<SubEntry>,
    pub child_scaffold: String,
}

/// A scalar whose value is an event id.
#[derive(Debug)]
pub struct EventRef {
    pub key: String,
    pub id: String,
}

/// What the frontend needs to know of a family.
#[derive(Debug)]
pub struct FamilyMeta {
    pub id: String,
    pub label: String,
    pub dir: String,
    pub project_file: String,
    pub has_color: bool,
    pub icon_kind: String,
    pub self_modifier: bool,
    pub ordered: bool,
    pub group_nested: bool,
    pub avail_trigger: String,
    pub script_blocks: Vec<ScriptBlockRef>,
    pub scalars: Vec<Scalar>,
    pub modifiers: Vec<String>,
    pub list_fields: Vec<ListField>,
    /// Creating an entity emits a named sprite.
    pub icon_gfx: bool,
    pub desc_suffix: bool,
    /// Whether the frontend offers a create affordance.
    pub allow_create: bool,
    pub sub_groups: Vec<SubGroupData>,
}

pub open spec fn rows_view(v: Seq<ModRow>) -> Seq<(Seq<char>, Seq<char>)> {
    v.map_values(|r: ModRow| (r.key@, r.value@))
}

pub open spec fn modifier_view(m: ModifierBlock) -> (Seq<char>, bool, bool, Seq<(Seq<char>, Seq<char>)>) {
    (m.name@, m.present, m.flat, rows_view(m.rows@))
}

pub open spec fn modifiers_view(v: Seq<ModifierBlock>) -> Seq<(Seq<char>, bool, bool, Seq<(Seq<char>, Seq<char>)>)> {
    v.map_values(|m: ModifierBlock| modifier_view(m))
}

pub open spec fn script_view(s: ScriptBlockRef) -> (Seq<char>, Seq<char>, bool) {
    (s.name@, s.registry@, s.present)
}

pub open spec fn scripts_view(v: Seq<ScriptBlockRef>) -> Seq<(Seq<char>, Seq<char>, bool)> {
    v.map_values(|s: ScriptBlockRef| script_view(s))
}

pub open spec fn scalar_view(s: Scalar) -> (Seq<char>, Seq<char>, bool, Seq<char>, Seq<Seq<char>>, Seq<char>) {
    (s.key@, s.kind@, s.present, s.value@, strings_of(s.options@), s.picker@)
}

pub open spec fn scalars_view(v: Seq<Scalar>) -> Seq<(Seq<char>, Seq<char>, bool, Seq<char>, Seq<Seq<char>>, Seq<char>)> {
    v.map_values(|s: Scalar| scalar_view(s))
}

pub open spec fn list_view(l: ListField) -> (Seq<char>, bool, Seq<char>, Seq<Seq<char>>) {
    (l.name@, l.present, l.picker@, strings_of(l.tokens@))
}

pub open spec fn lists_view(v: Seq<ListField>) -> Seq<(Seq<char>, bool, Seq<char>, Seq<Seq<char>>)> {
    v.map_values(|l: ListField| list_view(l))
}

/// The spec view of a sub-entry.
pub struct SubEntryView {
    pub key: Seq<char>,
    pub name: Seq<char>,
    pub modifier_blocks: Seq<(Seq<char>, bool, bool, Seq<(Seq<char>, Seq<char>)>)>,
    pub script_blocks: Seq<(Seq<char>, Seq<char>, bool)>,
    pub raw_extra: Seq<Seq<char>>,
    pub raw: Seq<char>,
}

pub open spec fn sub_entry_view(e: SubEntry) -> SubEntryView {
    SubEntryView {
        key: e.key@,
        name: e.name@,
        modifier_blocks: modifiers_view(e.modifier_blocks@),
        script_blocks: scripts_view(e.script_blocks@),
        raw_extra: strings_of(e.raw_extra@),
        raw: e.raw@,
    }
}

/// The spec view of a sub-entry container with its children.
pub struct SubGroupDataView {
    pub container: Seq<char>,
    pub label: Seq<char>,
    pub child_is_trigger: bool,
    pub child_modifiers: Seq<Seq<char>>,
    pub child_scripts: Seq<(Seq<char>, Seq<char>, bool)>,
    pub entries: Seq<SubEntryView>,
    pub child_scaffold: Seq<char>,
}

pub open spec fn sub_group_data_view(g: SubGroupData) -> SubGroupDataView {
    SubGroupDataView {
        container: g.container@,
        label: g.label@,
        child_is_trigger: g.child_is_trigger,
        child_modifiers: strings_of(g.child_modifiers@),
        child_scripts: scripts_view(g.child_scripts@),
        entries: g.entries@.map_values(|e: SubEntry| sub_entry_view(e)),
        child_scaffold: g.child_scaffold@,
    }
}

pub open spec fn sub_groups_data_view(v: Seq<SubGroupData>) -> Seq<SubGroupDataView> {
    v.map_values(|g: SubGroupData| sub_group_data_view(g))
}

/// The spec view of a family's meta.
pub struct MetaView {
    pub id: Seq<char>,
    pub label: Seq<char>,
    pub dir: Seq<char>,
    pub project_file: Seq<char>,
    pub has_color: bool,
    pub icon_kind: Seq<char>,
    pub self_modifier: bool,
    pub ordered: bool,
    pub group_nested: bool,
    pub avail_trigger: Seq<char>,
    pub script_blocks: Seq<(Seq<char>, Seq<char>, bool)>,
    pub scalars: Seq<(Seq<char>, Seq<char>, bool, Seq<char>, Seq<Seq<char>>, Seq<char>)>,
    pub modifiers: Seq<Seq<char>>,
    pub list_fields: Seq<(Seq<char>, bool, Seq<char>, Seq<Seq<char>>)>,
    pub icon_gfx: bool,
    pub desc_suffix: bool,
    pub allow_create: bool,
    pub sub_groups: Seq<SubGroupDataView>,
}

pub open spec fn meta_view(m: FamilyMeta) -> MetaView {
    MetaView {
        id: m.id@,
        label: m.label@,
        dir: m.dir@,
        project_file: m.project_file@,
        has_color: m.has_color,
        icon_kind: m.icon_kind@,
        self_modifier: m.self_modifier,
        ordered: m.ordered,
        group_nested: m.group_nested,
        avail_trigger: m.avail_trigger@,
        script_blocks: scripts_view(m.script_blocks@),
        scalars: scalars_view(m.scalars@),
        modifiers: strings_of(m.modifiers@),
        list_fields: lists_view(m.list_fields@),
        icon_gfx: m.icon_gfx,
        desc_suffix: m.desc_suffix,
        allow_create: m.allow_create,
        sub_groups: sub_groups_data_view(m.sub_groups@),
    }
}

pub open spec fn metas_view(v: Seq<FamilyMeta>) -> Seq<MetaView> {
    v.map_values(|m: FamilyMeta| meta_view(m))
}

// ---------------------------------------------------------------------------
// Family meta
// ---------------------------------------------------------------------------

/// A script block spec, not yet looked up in an entity.
pub open spec fn blank_script(s: (Seq<char>, Seq<char>)) -> (Seq<char>, Seq<char>, bool) {
    (s.0, s.1, false)
}

/// A scalar spec, not yet looked up in an entity.
pub open spec fn blank_scalar(s: (Seq<char>, Seq<char>, Seq<Seq<char>>, Seq<char>)) -> (Seq<char>, Seq<char>, bool, Seq<char>, Seq<Seq<char>>, Seq<char>) {
    (s.0, s.1, false, Seq::empty(), s.2, s.3)
}

/// A list field spec, not yet looked up in an entity.
pub open spec fn blank_list(l: (Seq<char>, Seq<char>)) -> (Seq<char>, bool, Seq<char>, Seq<Seq<char>>) {
    (l.0, false, l.1, Seq::empty())
}

/// A sub-entry container with no children.
pub open spec fn blank_group(g: SubGroupSpec) -> SubGroupDataView {
    SubGroupDataView {
        container: g.container,
        label: g.label,
        child_is_trigger: g.child_is_trigger,
        child_modifiers: g.child_modifiers,
        child_scripts: g.child_scripts.map_values(|s: (Seq<char>, Seq<char>)| blank_script(s)),
        entries: Seq::empty(),
        child_scaffold: g.child_scaffold,
    }
}

/// The meta of a family: its config with every per-entity field blank.
pub open spec fn meta_spec(f: FamilyView) -> MetaView {
    MetaView {
        id: f.id,
        label: f.label,
        dir: f.dir,
        project_file: f.project_file,
        has_color: f.has_color,
        icon_kind: f.icon,
        self_modifier: f.self_modifier,
        ordered: f.ordered,
        group_nested: f.group_nested,
        avail_trigger: f.avail_trigger,
        script_blocks: f.scripts.map_values(|s: (Seq<char>, Seq<char>)| blank_script(s)),
        scalars: f.scalars.map_values(|s: (Seq<char>, Seq<char>, Seq<Seq<char>>, Seq<char>)| blank_scalar(s)),
        modifiers: f.modifiers,
        list_fields: f.list_fields.map_values(|l: (Seq<char>, Seq<char>)| blank_list(l)),
        icon_gfx: f.icon_gfx is Some,
        desc_suffix: f.desc_suffix,
        allow_create: !no_create_spec(f.id),
        sub_groups: sub_groups_spec(f.id).map_values(|g: SubGroupSpec| blank_group(g)),
    }
}

fn blank_scripts(v: &Vec<BlockSpec>) -> (r: Vec<ScriptBlockRef>)
    ensures
        scripts_view(r@) == block_specs_view(v@).map_values(|s: (Seq<char>, Seq<char>)| blank_script(s)),
{
    let ghost want = block_specs_view(v@).map_values(|s: (Seq<char>, Seq<char>)| blank_script(s));
    let mut out: Vec<ScriptBlockRef> = Vec::new();
    let mut i: usize = 0;
    while i < v.len()
        invariant
            i <= v@.len(),
            want == block_specs_view(v@).map_values(|s: (Seq<char>, Seq<char>)| blank_script(s)),
            scripts_view(out@) == want.subrange(0, i as int),
        decreases v@.len() - i,
    {
        let ghost before = out@;
        out.push(ScriptBlockRef { name: v[i].name.to_string(), registry: v[i].registry.to_string(), present: false });
        assert(block_specs_view(v@)[i as int] == block_spec_view(v@[i as int]));
        assert(scripts_view(out@) =~= scripts_view(before).push(script_view(out@.last())));
        assert(scripts_view(out@) =~= want.subrange(0, i + 1));
        i = i + 1;
    }
    assert(want.subrange(0, v@.len() as int) =~= want);
    out
}

fn owned_strs(v: &Vec<&'static str>) -> (r: Vec<String>)
    ensures
        strings_of(r@) == texts(v@),
{
    let mut out: Vec<String> = Vec::new();
    let mut i: usize = 0;
    while i < v.len()
        invariant
            i <= v@.len(),
            strings_of(out@) == texts(v@).subrange(0, i as int),
        decreases v@.len() - i,
    {
        let ghost before = out@;
        out.push(v[i].to_string());
        assert(strings_of(out@) =~= strings_of(before).push(v@[i as int]@));
        assert(strings_of(out@) =~= texts(v@).subrange(0, i + 1));
        i = i + 1;
    }
    assert(texts(v@).subrange(0, v@.len() as int) =~= texts(v@));
    out
}

fn blank_scalars(v: &Vec<ScalarSpec>) -> (r: Vec<Scalar>)
    ensures
        scalars_view(r@) == scalar_specs_view(v@).map_values(|s: (Seq<char>, Seq<char>, Seq<Seq<char>>, Seq<char>)| blank_scalar(s)),
{
    let ghost want = scalar_specs_view(v@).map_values(|s: (Seq<char>, Seq<char>, Seq<Seq<char>>, Seq<char>)| blank_scalar(s));
    let mut out: Vec<Scalar> = Vec::new();
    let mut i: usize = 0;
    while i < v.len()
        invariant
            i <= v@.len(),
            want == scalar_specs_view(v@).map_values(|s: (Seq<char>, Seq<char>, Seq<Seq<char>>, Seq<char>)| blank_scalar(s)),
            scalars_view(out@) == want.subrange(0, i as int),
        decreases v@.len() - i,
    {
        let sp = &v[i];
        let ghost before = out@;
        out.push(Scalar {
            key: sp.key.to_string(),
            kind: sp.kind.to_string(),
            present: false,
            value: String::new(),
            options: owned_strs(&sp.options),
            picker: sp.picker.to_string(),
        });
        assert(scalar_specs_view(v@)[i as int] == scalar_spec_view(v@[i as int]));
        assert(scalars_view(out@) =~= scalars_view(before).push(scalar_view(out@.last())));
        assert(scalars_view(out@) =~= want.subrange(0, i + 1));
        i = i + 1;
    }
    assert(want.subrange(0, v@.len() as int) =~= want);
    out
}

fn blank_lists(v: &Vec<ListSpec>) -> (r: Vec<ListField>)
    ensures
        lists_view(r@) == list_specs_view(v@).map_values(|l: (Seq<char>, Seq<char>)| blank_list(l)),
{
    let ghost want = list_specs_view(v@).map_values(|l: (Seq<char>, Seq<char>)| blank_list(l));
    let mut out: Vec<ListField> = Vec::new();
    let mut i: usize = 0;
    while i < v.len()
        invariant
            i <= v@.len(),
            want == list_specs_view(v@).map_values(|l: (Seq<char>, Seq<char>)| blank_list(l)),
            lists_view(out@) == want.subrange(0, i as int),
        decreases v@.len() - i,
    {
        let tokens: Vec<String> = Vec::new();
        let ghost before = out@;
        out.push(ListField { name: v[i].name.to_string(), present: false, picker: v[i].picker.to_string(), tokens });
        assert(strings_of(tokens@) =~= Seq::<Seq<char>>::empty());
        assert(list_specs_view(v@)[i as int] == list_spec_view(v@[i as int]));
        assert(lists_view(out@) =~= lists_view(before).push(list_view(out@.last())));
        assert(lists_view(out@) =~= want.subrange(0, i + 1));
        i = i + 1;
    }
    assert(want.subrange(0, v@.len() as int) =~= want);
    out
}

fn blank_groups(v: &Vec<SubGroup>) -> (r: Vec<SubGroupData>)
    ensures
        sub_groups_data_view(r@) == sub_groups_view(v@).map_values(|g: SubGroupSpec| blank_group(g)),
{
    let ghost want = sub_groups_view(v@).map_values(|g: SubGroupSpec| blank_group(g));
    let mut out: Vec<SubGroupData> = Vec::new();
    let mut i: usize = 0;
    while i < v.len()
        invariant
            i <= v@.len(),
            want == sub_groups_view(v@).map_values(|g: SubGroupSpec| blank_group(g)),
            sub_groups_data_view(out@) == want.subrange(0, i as int),
        decreases v@.len() - i,
    {
        let g = &v[i];
        let entries: Vec<SubEntry> = Vec::new();
        let ghost before = out@;
        out.push(SubGroupData {
            container: g.container.to_string(),
            label: g.label.to_string(),
            child_is_trigger: g.child_is_trigger,
            child_modifiers: owned_strs(&g.child_modifiers),
            child_scripts: blank_scripts(&g.child_scripts),
            entries,
            child_scaffold: g.child_scaffold.to_string(),
        });
        assert(entries@.map_values(|e: SubEntry| sub_entry_view(e)) =~= Seq::<SubEntryView>::empty());
        assert(sub_groups_view(v@)[i as int] == sub_group_view(v@[i as int]));
        assert(sub_groups_data_view(out@) =~= sub_groups_data_view(before).push(sub_group_data_view(out@.last())));
        assert(sub_group_data_view(out@.last()) =~~= blank_group(sub_group_view(v@[i as int])));
        assert(sub_groups_data_view(out@) =~= want.subrange(0, i + 1));
        i = i + 1;
    }
    assert(want.subrange(0, v@.len() as int) =~= want);
    out
}

/// The meta of a family (its config, with no entity looked up).
pub fn family_meta(fam: &Family) -> (r: FamilyMeta)
    ensures
        meta_view(r) == meta_spec(family_view(*fam)),
{
    let groups = family_sub_groups(fam.id);
    let r = FamilyMeta {
        id: fam.id.to_string(),
        label: fam.label.to_string(),
        dir: fam.dir.to_string(),
        project_file: fam.project_file.to_string(),
        has_color: fam.has_color,
        icon_kind: fam.icon.to_string(),
        self_modifier: fam.self_modifier,
        ordered: fam.ordered,
        group_nested: fam.group_nested,
        avail_trigger: fam.avail_trigger.to_string(),
        script_blocks: blank_scripts(&fam.scripts),
        scalars: blank_scalars(&fam.scalars),
        modifiers: owned_strs(&fam.modifiers),
        list_fields: blank_lists(&fam.list_fields),
        icon_gfx: fam.icon_gfx.is_some(),
        desc_suffix: fam.desc_suffix,
        allow_create: !family_no_create(fam.id),
        sub_groups: blank_groups(&groups),
    };
    assert(meta_view(r) =~~= meta_spec(family_view(*fam)));
    r
}

/// The metas of the families shown in the selector, in table order.
pub open spec fn visible_metas(fs: Seq<FamilyView>) -> Seq<MetaView>
    decreases fs.len(),
{
    if fs.len() == 0 {
        Seq::empty()
    } else if hidden_spec(fs.last().id) {
        visible_metas(fs.drop_last())
    } else {
        visible_metas(fs.drop_last()).push(meta_spec(fs.last()))
    }
}

/// The metas of every family but the hidden ones, in table order.
pub fn get_mechanic_families() -> (r: Vec<FamilyMeta>)
    ensures
        metas_view(r@) == visible_metas(family_table()),
{
    let fams = families();
    let mut out: Vec<FamilyMeta> = Vec::new();
    let mut k: usize = 0;
    while k < fams.len()
        invariant
            k <= fams@.len(),
            families_view(fams@) == family_table(),
            metas_view(out@) == visible_metas(family_table().subrange(0, k as int)),
        decreases fams@.len() - k,
    {
        let ghost before = out@;
        assert(families_view(fams@)[k as int] == family_view(fams@[k as int]));
        assert(family_table().subrange(0, k + 1).drop_last() =~= family_table().subrange(0, k as int));
        if !family_hidden(fams[k].id) {
            let m = family_meta(&fams[k]);
            out.push(m);
            assert(metas_view(out@) =~= metas_view(before).push(meta_view(m)));
        }
        k = k + 1;
    }
    assert(family_table().subrange(0, fams@.len() as int) =~= family_table());
    out
}

/// The meta of one family by id, hidden ones included.
pub fn get_mechanic_family(family: String) -> (r: Result<FamilyMeta, String>)
    ensures
        match r {
            Ok(m) => family_pos(family@) matches Some(k) && meta_view(m) == meta_spec(family_table()[k]),
            Err(e) => family_pos(family@) is None && e@ == unknown_family(family@),
        },
{
    let fams = families();
    match family_index(&fams, family.as_str()) {
        None => Err(unknown_family_error(family.as_str())),
        Some(k) => {
            proof {
                lemma_pos_range(family@, 0);
                assert(fams@.len() == families_view(fams@).len());
            }
            assert(families_view(fams@)[k as int] == family_view(fams@[k as int]));
            Ok(family_meta(&fams[k]))
        },
    }
}

// ---------------------------------------------------------------------------
// Reading an entity
// ---------------------------------------------------------------------------

pub open spec fn scalar_key(s: (Seq<char>, Seq<char>, Seq<Seq<char>>, Seq<char>)) -> Seq<char> {
    s.0
}

pub open spec fn pair_first(p: (Seq<char>, Seq<char>)) -> Seq<char> {
    p.0
}

pub open spec fn group_container(g: SubGroupSpec) -> Seq<char> {
    g.container
}

/// The top-level keys a family models structurally: everything else is a
/// flat modifier row (self-modifier families), an ordered child (ordered
/// families) or preserved unknown.
pub open spec fn structural_spec(f: FamilyView) -> Seq<Seq<char>> {
    (if f.icon != "none"@ { seq!["icon"@] } else { Seq::empty() })
        + (if f.has_color { seq!["color"@] } else { Seq::empty() })
        + f.scalars.map_values(|s: (Seq<char>, Seq<char>, Seq<Seq<char>>, Seq<char>)| scalar_key(s))
        + f.modifiers
        + f.scripts.map_values(|p: (Seq<char>, Seq<char>)| pair_first(p))
        + f.list_fields.map_values(|p: (Seq<char>, Seq<char>)| pair_first(p))
        + sub_groups_spec(f.id).map_values(|g: SubGroupSpec| group_container(g))
}

fn append_strs(out: &mut Vec<&'static str>, v: &Vec<&'static str>)
    ensures
        texts(final(out)@) == texts(old(out)@) + texts(v@),
{
    let ghost start = texts(out@);
    let mut i: usize = 0;
    while i < v.len()
        invariant
            i <= v@.len(),
            texts(out@) == start + texts(v@).subrange(0, i as int),
        decreases v@.len() - i,
    {
        let ghost before = out@;
        out.push(v[i]);
        assert(texts(out@) =~= texts(before).push(v@[i as int]@));
        assert(texts(out@) =~= start + texts(v@).subrange(0, i + 1));
        i = i + 1;
    }
    assert(texts(v@).subrange(0, v@.len() as int) =~= texts(v@));
}

fn append_scalar_keys(out: &mut Vec<&'static str>, v: &Vec<ScalarSpec>)
    ensures
        texts(final(out)@) == texts(old(out)@) + scalar_specs_view(v@).map_values(|s: (Seq<char>, Seq<char>, Seq<Seq<char>>, Seq<char>)| scalar_key(s)),
{
    let ghost start = texts(out@);
    let ghost want = scalar_specs_view(v@).map_values(|s: (Seq<char>, Seq<char>, Seq<Seq<char>>, Seq<char>)| scalar_key(s));
    let mut i: usize = 0;
    while i < v.len()
        invariant
            i <= v@.len(),
            want == scalar_specs_view(v@).map_values(|s: (Seq<char>, Seq<char>, Seq<Seq<char>>, Seq<char>)| scalar_key(s)),
            texts(out@) == start + want.subrange(0, i as int),
        decreases v@.len() - i,
    {
        let ghost before = out@;
        out.push(v[i].key);
        assert(scalar_specs_view(v@)[i as int] == scalar_spec_view(v@[i as int]));
        assert(texts(out@) =~= texts(before).push(v@[i as int].key@));
        assert(texts(out@) =~= start + want.subrange(0, i + 1));
        i = i + 1;
    }
    assert(want.subrange(0, v@.len() as int) =~= want);
}

fn append_block_names(out: &mut Vec<&'static str>, v: &Vec<BlockSpec>)
    ensures
        texts(final(out)@) == texts(old(out)@) + block_specs_view(v@).map_values(|p: (Seq<char>, Seq<char>)| pair_first(p)),
{
    let ghost start = texts(out@);
    let ghost want = block_specs_view(v@).map_values(|p: (Seq<char>, Seq<char>)| pair_first(p));
    let mut i: usize = 0;
    while i < v.len()
        invariant
            i <= v@.len(),
            want == block_specs_view(v@).map_values(|p: (Seq<char>, Seq<char>)| pair_first(p)),
            texts(out@) == start + want.subrange(0, i as int),
        decreases v@.len() - i,
    {
        let ghost before = out@;
        out.push(v[i].name);
        assert(block_specs_view(v@)[i as int] == block_spec_view(v@[i as int]));
        assert(texts(out@) =~= texts(before).push(v@[i as int].name@));
        assert(texts(out@) =~= start + want.subrange(0, i + 1));
        i = i + 1;
    }
    assert(want.subrange(0, v@.len() as int) =~= want);
}

fn append_list_names(out: &mut Vec<&'static str>, v: &Vec<ListSpec>)
    ensures
        texts(final(out)@) == texts(old(out)@) + list_specs_view(v@).map_values(|p: (Seq<char>, Seq<char>)| pair_first(p)),
{
    let ghost start = texts(out@);
    let ghost want = list_specs_view(v@).map_values(|p: (Seq<char>, Seq<char>)| pair_first(p));
    let mut i: usize = 0;
    while i < v.len()
        invariant
            i <= v@.len(),
            want == list_specs_view(v@).map_values(|p: (Seq<char>, Seq<char>)| pair_first(p)),
            texts(out@) == start + want.subrange(0, i as int),
        decreases v@.len() - i,
    {
        let ghost before = out@;
        out.push(v[i].name);
        assert(list_specs_view(v@)[i as int] == list_spec_view(v@[i as int]));
        assert(texts(out@) =~= texts(before).push(v@[i as int].name@));
        assert(texts(out@) =~= start + want.subrange(0, i + 1));
        i = i + 1;
    }
    assert(want.subrange(0, v@.len() as int) =~= want);
}

fn append_containers(out: &mut Vec<&'static str>, v: &Vec<SubGroup>)
    ensures
        texts(final(out)@) == texts(old(out)@) + sub_groups_view(v@).map_values(|g: SubGroupSpec| group_container(g)),
{
    let ghost start = texts(out@);
    let ghost want = sub_groups_view(v@).map_values(|g: SubGroupSpec| group_container(g));
    let mut i: usize = 0;
    while i < v.len()
        invariant
            i <= v@.len(),
            want == sub_groups_view(v@).map_values(|g: SubGroupSpec| group_container(g)),
            texts(out@) == start + want.subrange(0, i as int),
        decreases v@.len() - i,
    {
        let ghost before = out@;
        out.push(v[i].container);
        assert(sub_groups_view(v@)[i as int] == sub_group_view(v@[i as int]));
        assert(texts(out@) =~= texts(before).push(v@[i as int].container@));
        assert(texts(out@) =~= start + want.subrange(0, i + 1));
        i = i + 1;
    }
    assert(want.subrange(0, v@.len() as int) =~= want);
}

fn structural_keys(fam: &Family, groups: &Vec<SubGroup>) -> (r: Vec<&'static str>)
    requires
        sub_groups_view(groups@) == sub_groups_spec(fam.id@),
    ensures
        texts(r@) == structural_spec(family_view(*fam)),
{
    let mut out: Vec<&'static str> = Vec::new();
    if !str_eq(fam.icon, "none") {
        out.push("icon");
    }
    if fam.has_color {
        out.push("color");
    }
    let ghost head = texts(out@);
    assert(head =~= (if fam.icon@ != "none"@ { seq!["icon"@] } else { Seq::empty() })
        + (if fam.has_color { seq!["color"@] } else { Seq::empty() }));
    append_scalar_keys(&mut out, &fam.scalars);
    append_strs(&mut out, &fam.modifiers);
    append_block_names(&mut out, &fam.scripts);
    append_list_names(&mut out, &fam.list_fields);
    append_containers(&mut out, groups);
    assert(texts(out@) =~= structural_spec(family_view(*fam)));
    out
}

/// Whether every item is a `key = scalar` row.
pub open spec fn all_rows(items: Seq<(Option<String>, Value)>) -> bool
    decreases items.len(),
{
    if items.len() == 0 {
        true
    } else {
        all_rows(items.drop_last()) && (items.last() matches (Some(_), Value::Scalar(_)))
    }
}

/// A modifier-style block of the entity: (name, present, flat, rows), the
/// rows being every `key = scalar` item (values as written).
pub open spec fn modifier_spec(items: Seq<(Option<String>, Value)>, name: Seq<char>) -> (Seq<char>, bool, bool, Seq<(Seq<char>, Seq<char>)>) {
    match named_block(items, name) {
        None => (name, false, true, Seq::empty()),
        Some(mb) => (name, true, all_rows(mb.items@), keyed_scalars(mb.items@)),
    }
}

/// The `key = scalar` rows of a block and whether they are all it holds.
fn rows_of(inner: &Block) -> (r: (Vec<ModRow>, bool))
    ensures
        rows_view(r.0@) == keyed_scalars(inner.items@),
        r.1 == all_rows(inner.items@),
{
    let mut rows: Vec<ModRow> = Vec::new();
    let mut flat = true;
    let mut i: usize = 0;
    while i < inner.items.len()
        invariant
            i <= inner.items@.len(),
            rows_view(rows@) == keyed_scalars(inner.items@.subrange(0, i as int)),
            flat == all_rows(inner.items@.subrange(0, i as int)),
        decreases inner.items@.len() - i,
    {
        let ghost before = rows@;
        assert(inner.items@.subrange(0, i + 1).drop_last() =~= inner.items@.subrange(0, i as int));
        match &inner.items[i] {
            (Some(k), Value::Scalar(sv)) => {
                rows.push(ModRow { key: k.clone(), value: sv.clone() });
                assert(rows_view(rows@) =~= rows_view(before).push((k@, sv@)));
            },
            _ => {
                flat = false;
            },
        }
        i = i + 1;
    }
    assert(inner.items@.subrange(0, inner.items@.len() as int) =~= inner.items@);
    (rows, flat)
}

fn modifier_block(b: &Block, name: &str) -> (r: ModifierBlock)
    ensures
        modifier_view(r) == modifier_spec(b.items@, name@),
{
    match b.get_block(name) {
        None => {
            let rows: Vec<ModRow> = Vec::new();
            assert(rows_view(rows@) =~= Seq::<(Seq<char>, Seq<char>)>::empty());
            ModifierBlock { name: name.to_string(), present: false, flat: true, rows }
        },
        Some(inner) => {
            let (rows, flat) = rows_of(inner);
            ModifierBlock { name: name.to_string(), present: true, flat, rows }
        },
    }
}

fn modifier_blocks_of(b: &Block, names: &Vec<&'static str>) -> (r: Vec<ModifierBlock>)
    ensures
        modifiers_view(r@) == texts(names@).map_values(|n: Seq<char>| modifier_spec(b.items@, n)),
{
    let ghost want = texts(names@).map_values(|n: Seq<char>| modifier_spec(b.items@, n));
    let mut out: Vec<ModifierBlock> = Vec::new();
    let mut i: usize = 0;
    while i < names.len()
        invariant
            i <= names@.len(),
            want == texts(names@).map_values(|n: Seq<char>| modifier_spec(b.items@, n)),
            modifiers_view(out@) == want.subrange(0, i as int),
        decreases names@.len() - i,
    {
        let ghost before = out@;
        let m = modifier_block(b, names[i]);
        out.push(m);
        assert(modifiers_view(out@) =~= modifiers_view(before).push(modifier_view(m)));
        assert(modifiers_view(out@) =~= want.subrange(0, i + 1));
        i = i + 1;
    }
    assert(want.subrange(0, names@.len() as int) =~= want);
    out
}

/// A typed scalar of the entity: present with its trimmed value, or absent
/// with an empty value.
pub open spec fn scalar_spec(items: Seq<(Option<String>, Value)>, s: (Seq<char>, Seq<char>, Seq<Seq<char>>, Seq<char>)) -> (Seq<char>, Seq<char>, bool, Seq<char>, Seq<Seq<char>>, Seq<char>) {
    match trimmed_value(items, s.0) {
        Some(v) => (s.0, s.1, true, v, s.2, s.3),
        None => (s.0, s.1, false, Seq::empty(), s.2, s.3),
    }
}

fn scalars_of(b: &Block, v: &Vec<ScalarSpec>) -> (r: Vec<Scalar>)
    ensures
        scalars_view(r@) == scalar_specs_view(v@).map_values(|s: (Seq<char>, Seq<char>, Seq<Seq<char>>, Seq<char>)| scalar_spec(b.items@, s)),
{
    let ghost want = scalar_specs_view(v@).map_values(|s: (Seq<char>, Seq<char>, Seq<Seq<char>>, Seq<char>)| scalar_spec(b.items@, s));
    let mut out: Vec<Scalar> = Vec::new();
    let mut i: usize = 0;
    while i < v.len()
        invariant
            i <= v@.len(),
            want == scalar_specs_view(v@).map_values(|s: (Seq<char>, Seq<char>, Seq<Seq<char>>, Seq<char>)| scalar_spec(b.items@, s)),
            scalars_view(out@) == want.subrange(0, i as int),
        decreases v@.len() - i,
    {
        let sp = &v[i];
        let val = trimmed_scalar(b, sp.key);
        let present = val.is_some();
        let value = match val {
            Some(t) => t,
            None => String::new(),
        };
        let ghost before = out@;
        out.push(Scalar {
            key: sp.key.to_string(),
            kind: sp.kind.to_string(),
            present,
            value,
            options: owned_strs(&sp.options),
            picker: sp.picker.to_string(),
        });
        assert(scalar_specs_view(v@)[i as int] == scalar_spec_view(v@[i as int]));
        assert(scalars_view(out@) =~= scalars_view(before).push(scalar_view(out@.last())));
        assert(scalars_view(out@) =~= want.subrange(0, i + 1));
        i = i + 1;
    }
    assert(want.subrange(0, v@.len() as int) =~= want);
    out
}

/// A script block of the entity: present when it holds the block.
pub open spec fn script_spec(items: Seq<(Option<String>, Value)>, s: (Seq<char>, Seq<char>)) -> (Seq<char>, Seq<char>, bool) {
    (s.0, s.1, has_block(items, s.0))
}

fn scripts_of(b: &Block, v: &Vec<BlockSpec>) -> (r: Vec<ScriptBlockRef>)
    ensures
        scripts_view(r@) == block_specs_view(v@).map_values(|s: (Seq<char>, Seq<char>)| script_spec(b.items@, s)),
{
    let ghost want = block_specs_view(v@).map_values(|s: (Seq<char>, Seq<char>)| script_spec(b.items@, s));
    let mut out: Vec<ScriptBlockRef> = Vec::new();
    let mut i: usize = 0;
    while i < v.len()
        invariant
            i <= v@.len(),
            want == block_specs_view(v@).map_values(|s: (Seq<char>, Seq<char>)| script_spec(b.items@, s)),
            scripts_view(out@) == want.subrange(0, i as int),
        decreases v@.len() - i,
    {
        let ghost before = out@;
        let present = b.get_block(v[i].name).is_some();
        out.push(ScriptBlockRef { name: v[i].name.to_string(), registry: v[i].registry.to_string(), present });
        assert(block_specs_view(v@)[i as int] == block_spec_view(v@[i as int]));
        assert(scripts_view(out@) =~= scripts_view(before).push(script_view(out@.last())));
        assert(scripts_view(out@) =~= want.subrange(0, i + 1));
        i = i + 1;
    }
    assert(want.subrange(0, v@.len() as int) =~= want);
    out
}

/// A list field of the entity: present with its bare tokens, or absent.
pub open spec fn list_field_spec(items: Seq<(Option<String>, Value)>, l: (Seq<char>, Seq<char>)) -> (Seq<char>, bool, Seq<char>, Seq<Seq<char>>) {
    match named_block(items, l.0) {
        None => (l.0, false, l.1, Seq::empty()),
        Some(lb) => (l.0, true, l.1, bare_texts(lb.items@)),
    }
}

fn lists_of(b: &Block, v: &Vec<ListSpec>) -> (r: Vec<ListField>)
    ensures
        lists_view(r@) == list_specs_view(v@).map_values(|l: (Seq<char>, Seq<char>)| list_field_spec(b.items@, l)),
{
    let ghost want = list_specs_view(v@).map_values(|l: (Seq<char>, Seq<char>)| list_field_spec(b.items@, l));
    let mut out: Vec<ListField> = Vec::new();
    let mut i: usize = 0;
    while i < v.len()
        invariant
            i <= v@.len(),
            want == list_specs_view(v@).map_values(|l: (Seq<char>, Seq<char>)| list_field_spec(b.items@, l)),
            lists_view(out@) == want.subrange(0, i as int),
        decreases v@.len() - i,
    {
        let ghost before = out@;
        let field = match b.get_block(v[i].name) {
            None => {
                let tokens: Vec<String> = Vec::new();
                assert(strings_of(tokens@) =~= Seq::<Seq<char>>::empty());
                ListField { name: v[i].name.to_string(), present: false, picker: v[i].picker.to_string(), tokens }
            },
            Some(inner) => ListField {
                name: v[i].name.to_string(),
                present: true,
                picker: v[i].picker.to_string(),
                tokens: bare_strings(inner),
            },
        };
        out.push(field);
        assert(list_specs_view(v@)[i as int] == list_spec_view(v@[i as int]));
        assert(lists_view(out@) =~= lists_view(before).push(list_view(field)));
        assert(lists_view(out@) =~= want.subrange(0, i + 1));
        i = i + 1;
    }
    assert(want.subrange(0, v@.len() as int) =~= want);
    out
}

/// The `key = scalar` items whose key is not structural: a self-modifier
/// entity's flat modifier rows (values as written).
pub open spec fn self_rows_spec(items: Seq<(Option<String>, Value)>, st: Seq<Seq<char>>) -> Seq<(Seq<char>, Seq<char>)>
    decreases items.len(),
{
    if items.len() == 0 {
        Seq::empty()
    } else {
        let rest = self_rows_spec(items.drop_last(), st);
        match items.last() {
            (Some(k), Value::Scalar(v)) => if !st.contains(k@) { rest.push((k@, v@)) } else { rest },
            _ => rest,
        }
    }
}

fn self_rows_of(b: &Block, st: &Vec<&'static str>) -> (r: Vec<ModRow>)
    ensures
        rows_view(r@) == self_rows_spec(b.items@, texts(st@)),
{
    let mut out: Vec<ModRow> = Vec::new();
    let mut i: usize = 0;
    while i < b.items.len()
        invariant
            i <= b.items@.len(),
            rows_view(out@) == self_rows_spec(b.items@.subrange(0, i as int), texts(st@)),
        decreases b.items@.len() - i,
    {
        let ghost before = out@;
        assert(b.items@.subrange(0, i + 1).drop_last() =~= b.items@.subrange(0, i as int));
        match &b.items[i] {
            (Some(k), Value::Scalar(sv)) => {
                if !contains_static(st, k.as_str()) {
                    out.push(ModRow { key: k.clone(), value: sv.clone() });
                    assert(rows_view(out@) =~= rows_view(before).push((k@, sv@)));
                }
            },
            _ => {},
        }
        i = i + 1;
    }
    assert(b.items@.subrange(0, b.items@.len() as int) =~= b.items@);
    out
}

/// The child blocks whose key is not structural: an ordered entity's steps,
/// each (key, flat, rows).
pub open spec fn ordered_spec(items: Seq<(Option<String>, Value)>, st: Seq<Seq<char>>) -> Seq<(Seq<char>, bool, Seq<(Seq<char>, Seq<char>)>)>
    decreases items.len(),
{
    if items.len() == 0 {
        Seq::empty()
    } else {
        let rest = ordered_spec(items.drop_last(), st);
        match items.last() {
            (Some(k), Value::Block(cb)) => if !st.contains(k@) {
                rest.push((k@, all_rows(cb.items@), keyed_scalars(cb.items@)))
            } else {
                rest
            },
            _ => rest,
        }
    }
}

pub open spec fn step_view(s: ReformStep) -> (Seq<char>, bool, Seq<(Seq<char>, Seq<char>)>) {
    (s.key@, s.flat, rows_view(s.rows@))
}

pub open spec fn steps_view(v: Seq<ReformStep>) -> Seq<(Seq<char>, bool, Seq<(Seq<char>, Seq<char>)>)> {
    v.map_values(|s: ReformStep| step_view(s))
}

fn ordered_of(b: &Block, st: &Vec<&'static str>) -> (r: Vec<ReformStep>)
    ensures
        steps_view(r@) == ordered_spec(b.items@, texts(st@)),
{
    let mut out: Vec<ReformStep> = Vec::new();
    let mut i: usize = 0;
    while i < b.items.len()
        invariant
            i <= b.items@.len(),
            steps_view(out@) == ordered_spec(b.items@.subrange(0, i as int), texts(st@)),
        decreases b.items@.len() - i,
    {
        let ghost before = out@;
        assert(b.items@.subrange(0, i + 1).drop_last() =~= b.items@.subrange(0, i as int));
        match &b.items[i] {
            (Some(k), Value::Block(cb)) => {
                if !contains_static(st, k.as_str()) {
                    let (rows, flat) = rows_of(cb);
                    let step = ReformStep { key: k.clone(), flat, rows };
                    out.push(step);
                    assert(steps_view(out@) =~= steps_view(before).push(step_view(step)));
                }
            },
            _ => {},
        }
        i = i + 1;
    }
    assert(b.items@.subrange(0, b.items@.len() as int) =~= b.items@);
    out
}

/// `s` without its leading `"` characters.
pub open spec fn drop_lead_quotes(s: Seq<char>) -> Seq<char>
    decreases s.len(),
{
    if s.len() > 0 && s[0] == '"' {
        drop_lead_quotes(s.drop_first())
    } else {
        s
    }
}

/// `s` without its trailing `"` characters.
pub open spec fn drop_trail_quotes(s: Seq<char>) -> Seq<char>
    decreases s.len(),
{
    if s.len() > 0 && s.last() == '"' {
        drop_trail_quotes(s.drop_last())
    } else {
        s
    }
}

/// `s` with every leading and trailing `"` removed (`trim_matches('"')`).
pub open spec fn strip_quotes(s: Seq<char>) -> Seq<char> {
    drop_trail_quotes(drop_lead_quotes(s))
}

fn strip_quotes_chars(cs: &[char]) -> (r: Vec<char>)
    ensures
        r@ == strip_quotes(cs@),
{
    let n = cs.len();
    let mut i: usize = 0;
    assert(cs@.subrange(0, n as int) =~= cs@);
    while i < n && cs[i] == '"'
        invariant
            i <= n,
            n == cs@.len(),
            drop_lead_quotes(cs@) == drop_lead_quotes(cs@.subrange(i as int, n as int)),
        decreases n - i,
    {
        assert(cs@.subrange(i as int, n as int).drop_first() =~= cs@.subrange(i + 1, n as int));
        i = i + 1;
    }
    let ghost lead = cs@.subrange(i as int, n as int);
    assert(drop_lead_quotes(cs@) == lead);
    let mut j: usize = n;
    while j > i && cs[j - 1] == '"'
        invariant
            i <= j <= n,
            n == cs@.len(),
            lead == cs@.subrange(i as int, n as int),
            drop_trail_quotes(lead) == drop_trail_quotes(cs@.subrange(i as int, j as int)),
        decreases j - i,
    {
        assert(cs@.subrange(i as int, j as int).drop_last() =~= cs@.subrange(i as int, j - 1));
        j = j - 1;
    }
    let mut out: Vec<char> = Vec::new();
    let mut k: usize = i;
    while k < j
        invariant
            i <= k <= j <= n,
            n == cs@.len(),
            out@ == cs@.subrange(i as int, k as int),
        decreases j - k,
    {
        out.push(cs[k]);
        assert(out@ =~= cs@.subrange(i as int, k + 1));
        k = k + 1;
    }
    out
}

/// The event-id scalars of the entity: for each key, its value trimmed and
/// unquoted, when that is not empty.
pub open spec fn event_refs_spec(items: Seq<(Option<String>, Value)>, keys: Seq<Seq<char>>) -> Seq<(Seq<char>, Seq<char>)>
    decreases keys.len(),
{
    if keys.len() == 0 {
        Seq::empty()
    } else {
        let rest = event_refs_spec(items, keys.drop_last());
        match scalar_value(items, keys.last()) {
            Some(v) => {
                let id = strip_quotes(trim_spec(v, false));
                if id.len() > 0 { rest.push((keys.last(), id)) } else { rest }
            },
            None => rest,
        }
    }
}

pub open spec fn event_refs_view(v: Seq<EventRef>) -> Seq<(Seq<char>, Seq<char>)> {
    v.map_values(|e: EventRef| (e.key@, e.id@))
}

fn event_refs_of(b: &Block, keys: &Vec<&'static str>) -> (r: Vec<EventRef>)
    ensures
        event_refs_view(r@) == event_refs_spec(b.items@, texts(keys@)),
{
    let mut out: Vec<EventRef> = Vec::new();
    let mut i: usize = 0;
    while i < keys.len()
        invariant
            i <= keys@.len(),
            event_refs_view(out@) == event_refs_spec(b.items@, texts(keys@).subrange(0, i as int)),
        decreases keys@.len() - i,
    {
        let ghost before = out@;
        let ghost sub = texts(keys@).subrange(0, i + 1);
        assert(sub.drop_last() =~= texts(keys@).subrange(0, i as int));
        assert(sub.last() == keys@[i as int]@);
        match b.get_scalar(keys[i]) {
            Some(v) => {
                let cs = chars_of(v);
                let t = trim_chars(cs.as_slice(), false);
                let q = strip_quotes_chars(t.as_slice());
                if q.len() > 0 {
                    let id = string_from_chars(q.as_slice());
                    out.push(EventRef { key: keys[i].to_string(), id });
                    assert(event_refs_view(out@) =~= event_refs_view(before).push((keys@[i as int]@, q@)));
                }
            },
            None => {},
        }
        i = i + 1;
    }
    assert(texts(keys@).subrange(0, keys@.len() as int) =~= texts(keys@));
    out
}

pub open spec fn row_key(r: (Seq<char>, Seq<char>)) -> Seq<char> {
    r.0
}

pub open spec fn step_key(s: (Seq<char>, bool, Seq<(Seq<char>, Seq<char>)>)) -> Seq<char> {
    s.0
}

fn append_row_keys(out: &mut Vec<String>, rows: &Vec<ModRow>)
    ensures
        strings_of(final(out)@) == strings_of(old(out)@) + rows_view(rows@).map_values(|r: (Seq<char>, Seq<char>)| row_key(r)),
{
    let ghost start = strings_of(out@);
    let ghost want = rows_view(rows@).map_values(|r: (Seq<char>, Seq<char>)| row_key(r));
    let mut i: usize = 0;
    while i < rows.len()
        invariant
            i <= rows@.len(),
            want == rows_view(rows@).map_values(|r: (Seq<char>, Seq<char>)| row_key(r)),
            strings_of(out@) == start + want.subrange(0, i as int),
        decreases rows@.len() - i,
    {
        let ghost before = out@;
        out.push(rows[i].key.clone());
        assert(strings_of(out@) =~= strings_of(before).push(rows@[i as int].key@));
        assert(strings_of(out@) =~= start + want.subrange(0, i + 1));
        i = i + 1;
    }
    assert(want.subrange(0, rows@.len() as int) =~= want);
}

fn append_step_keys(out: &mut Vec<String>, steps: &Vec<ReformStep>)
    ensures
        strings_of(final(out)@) == strings_of(old(out)@) + steps_view(steps@).map_values(|s: (Seq<char>, bool, Seq<(Seq<char>, Seq<char>)>)| step_key(s)),
{
    let ghost start = strings_of(out@);
    let ghost want = steps_view(steps@).map_values(|s: (Seq<char>, bool, Seq<(Seq<char>, Seq<char>)>)| step_key(s));
    let mut i: usize = 0;
    while i < steps.len()
        invariant
            i <= steps@.len(),
            want == steps_view(steps@).map_values(|s: (Seq<char>, bool, Seq<(Seq<char>, Seq<char>)>)| step_key(s)),
            strings_of(out@) == start + want.subrange(0, i as int),
        decreases steps@.len() - i,
    {
        let ghost before = out@;
        out.push(steps[i].key.clone());
        assert(strings_of(out@) =~= strings_of(before).push(steps@[i as int].key@));
        assert(strings_of(out@) =~= start + want.subrange(0, i + 1));
        i = i + 1;
    }
    assert(want.subrange(0, steps@.len() as int) =~= want);
}

/// A path of keys as the byte paths block spans are located by.
pub open spec fn text_path(p: Seq<Seq<char>>) -> Seq<Seq<u8>> {
    p.map_values(|s: Seq<char>| vstd::utf8::encode_utf8(s))
}

/// The block path of an entity: `[group, religious_schools, edit_key]` for a
/// group-nested one, else `[edit_key]`.
pub open spec fn span_path_spec(group: Option<Seq<char>>, edit_key: Seq<char>) -> Seq<Seq<char>> {
    match group {
        Some(g) => seq![g, "religious_schools"@, edit_key],
        None => seq![edit_key],
    }
}

/// The keys a sub-entry child models.
pub open spec fn child_modeled(g: SubGroupSpec) -> Seq<Seq<char>> {
    g.child_modifiers + g.child_scripts.map_values(|p: (Seq<char>, Seq<char>)| pair_first(p))
}

/// One child `c` (key and block) of the container `g` of the entity at
/// `base`: its loc-resolved name, and unless it is a whole-body trigger its
/// modifier blocks, script blocks and unmodeled keys; and its raw text.
pub open spec fn sub_entry_spec(
    src: Seq<u8>,
    base: Seq<Seq<char>>,
    g: SubGroupSpec,
    loc: Seq<(Seq<char>, Seq<char>)>,
    c: (Seq<char>, Block),
) -> SubEntryView {
    let items = c.1.items@;
    SubEntryView {
        key: c.0,
        name: resolve_spec(loc, c.0),
        modifier_blocks: if g.child_is_trigger {
            Seq::empty()
        } else {
            g.child_modifiers.map_values(|n: Seq<char>| modifier_spec(items, n))
        },
        script_blocks: if g.child_is_trigger {
            Seq::empty()
        } else {
            g.child_scripts.map_values(|s: (Seq<char>, Seq<char>)| script_spec(items, s))
        },
        raw_extra: if g.child_is_trigger { Seq::empty() } else { unmodeled_keys(items, child_modeled(g)) },
        raw: raw_text(src, text_path(base + seq![g.container, c.0])),
    }
}

/// The container `g` read from the entity's items: its children in order.
pub open spec fn sub_group_spec(
    src: Seq<u8>,
    base: Seq<Seq<char>>,
    g: SubGroupSpec,
    loc: Seq<(Seq<char>, Seq<char>)>,
    items: Seq<(Option<String>, Value)>,
) -> SubGroupDataView {
    SubGroupDataView {
        container: g.container,
        label: g.label,
        child_is_trigger: g.child_is_trigger,
        child_modifiers: g.child_modifiers,
        child_scripts: g.child_scripts.map_values(|s: (Seq<char>, Seq<char>)| blank_script(s)),
        entries: match named_block(items, g.container) {
            Some(cb) => keyed_blocks(cb.items@).map_values(|c: (Seq<char>, Block)| sub_entry_spec(src, base, g, loc, c)),
            None => Seq::empty(),
        },
        child_scaffold: g.child_scaffold,
    }
}

fn sub_entry(
    src: &[u8],
    base: &Vec<String>,
    g: &SubGroup,
    loc: &[(String, String)],
    key: &str,
    cb: &Block,
) -> (r: SubEntry)
    ensures
        sub_entry_view(r) == sub_entry_spec(src@, strings_of(base@), sub_group_view(*g), loc_view(loc@), (key@, *cb)),
{
    let gs = Ghost(sub_group_view(*g));
    let (modifier_blocks, script_blocks, raw_extra) = if g.child_is_trigger {
        let m: Vec<ModifierBlock> = Vec::new();
        let s: Vec<ScriptBlockRef> = Vec::new();
        let x: Vec<String> = Vec::new();
        assert(modifiers_view(m@) =~= Seq::<(Seq<char>, bool, bool, Seq<(Seq<char>, Seq<char>)>)>::empty());
        assert(scripts_view(s@) =~= Seq::<(Seq<char>, Seq<char>, bool)>::empty());
        assert(strings_of(x@) =~= Seq::<Seq<char>>::empty());
        (m, s, x)
    } else {
        let m = modifier_blocks_of(cb, &g.child_modifiers);
        let s = scripts_of(cb, &g.child_scripts);
        let mut modeled: Vec<&'static str> = Vec::new();
        append_strs(&mut modeled, &g.child_modifiers);
        append_block_names(&mut modeled, &g.child_scripts);
        assert(texts(modeled@) =~= child_modeled(gs@));
        let x = unmodeled(cb, &modeled);
        (m, s, x)
    };
    let mut path = clone_strings(base);
    path.push(g.container.to_string());
    path.push(key.to_string());
    assert(string_path(path@) =~= text_path(strings_of(base@) + seq![g.container@, key@]));
    let raw = raw_block(src, path.as_slice());
    let r = SubEntry { key: key.to_string(), name: loc_resolve(loc, key), modifier_blocks, script_blocks, raw_extra, raw };
    assert(sub_entry_view(r) =~~= sub_entry_spec(src@, strings_of(base@), gs@, loc_view(loc@), (key@, *cb)));
    r
}

fn sub_group_of(
    src: &[u8],
    base: &Vec<String>,
    g: &SubGroup,
    b: &Block,
    loc: &[(String, String)],
) -> (r: SubGroupData)
    ensures
        sub_group_data_view(r) == sub_group_spec(src@, strings_of(base@), sub_group_view(*g), loc_view(loc@), b.items@),
{
    let ghost gs = sub_group_view(*g);
    let ghost bs = strings_of(base@);
    let ghost lv = loc_view(loc@);
    let mut entries: Vec<SubEntry> = Vec::new();
    match b.get_block(g.container) {
        Some(container) => {
            let kids = container.key_blocks();
            let ghost want = keyed_blocks(container.items@).map_values(|c: (Seq<char>, Block)| sub_entry_spec(src@, bs, gs, lv, c));
            let mut i: usize = 0;
            while i < kids.len()
                invariant
                    i <= kids@.len(),
                    kids@.len() == keyed_blocks(container.items@).len(),
                    forall|k: int| 0 <= k < kids@.len() ==> (#[trigger] kids@[k]).0@ == keyed_blocks(container.items@)[k].0
                        && *kids@[k].1 == keyed_blocks(container.items@)[k].1,
                    gs == sub_group_view(*g),
                    bs == strings_of(base@),
                    lv == loc_view(loc@),
                    want == keyed_blocks(container.items@).map_values(|c: (Seq<char>, Block)| sub_entry_spec(src@, bs, gs, lv, c)),
                    entries@.map_values(|e: SubEntry| sub_entry_view(e)) == want.subrange(0, i as int),
                decreases kids@.len() - i,
            {
                let ghost before = entries@;
                let (k, cb) = kids[i];
                let e = sub_entry(src, base, g, loc, k, cb);
                entries.push(e);
                assert(entries@.map_values(|e: SubEntry| sub_entry_view(e)) =~= before.map_values(|e: SubEntry| sub_entry_view(e)).push(sub_entry_view(e)));
                assert(entries@.map_values(|e: SubEntry| sub_entry_view(e)) =~= want.subrange(0, i + 1));
                i = i + 1;
            }
            assert(want.subrange(0, kids@.len() as int) =~= want);
        },
        None => {
            assert(entries@.map_values(|e: SubEntry| sub_entry_view(e)) =~= Seq::<SubEntryView>::empty());
        },
    }
    let r = SubGroupData {
        container: g.container.to_string(),
        label: g.label.to_string(),
        child_is_trigger: g.child_is_trigger,
        child_modifiers: owned_strs(&g.child_modifiers),
        child_scripts: blank_scripts(&g.child_scripts),
        entries,
        child_scaffold: g.child_scaffold.to_string(),
    };
    assert(sub_group_data_view(r) =~~= sub_group_spec(src@, bs, gs, lv, b.items@));
    r
}

fn sub_groups_of(
    src: &[u8],
    base: &Vec<String>,
    groups: &Vec<SubGroup>,
    b: &Block,
    loc: &[(String, String)],
) -> (r: Vec<SubGroupData>)
    ensures
        sub_groups_data_view(r@) == sub_groups_view(groups@).map_values(|g: SubGroupSpec| sub_group_spec(src@, strings_of(base@), g, loc_view(loc@), b.items@)),
{
    let ghost want = sub_groups_view(groups@).map_values(|g: SubGroupSpec| sub_group_spec(src@, strings_of(base@), g, loc_view(loc@), b.items@));
    let mut out: Vec<SubGroupData> = Vec::new();
    let mut i: usize = 0;
    while i < groups.len()
        invariant
            i <= groups@.len(),
            want == sub_groups_view(groups@).map_values(|g: SubGroupSpec| sub_group_spec(src@, strings_of(base@), g, loc_view(loc@), b.items@)),
            sub_groups_data_view(out@) == want.subrange(0, i as int),
        decreases groups@.len() - i,
    {
        let ghost before = out@;
        let d = sub_group_of(src, base, &groups[i], b, loc);
        out.push(d);
        assert(sub_groups_view(groups@)[i as int] == sub_group_view(groups@[i as int]));
        assert(sub_groups_data_view(out@) =~= sub_groups_data_view(before).push(sub_group_data_view(d)));
        assert(sub_groups_data_view(out@) =~= want.subrange(0, i + 1));
        i = i + 1;
    }
    assert(want.subrange(0, groups@.len() as int) =~= want);
    out
}

/// One entity of a family, ready for the list and the typed editor.
#[derive(Debug)]
pub struct MechanicObject {
    pub family: String,
    pub key: String,
    /// The occurrence-qualified path segment edits address (`key`, or
    /// `key#n` for the nth block of that key).
    pub edit_key: String,
    pub file: String,
    pub origin: String,
    pub name: String,
    pub name_key: String,
    pub desc_key: String,
    pub desc_loc: Option<String>,
    pub icon: Option<String>,
    pub icon_kind: String,
    pub color: Option<[u8; 3]>,
    pub scalars: Vec<Scalar>,
    pub modifier_blocks: Vec<ModifierBlock>,
    pub list_fields: Vec<ListField>,
    pub self_modifier: bool,
    pub self_rows: Vec<ModRow>,
    pub script_blocks: Vec<ScriptBlockRef>,
    pub ordered: bool,
    pub ordered_children: Vec<ReformStep>,
    pub sub_groups: Vec<SubGroupData>,
    pub event_refs: Vec<EventRef>,
    /// For group-nested families: the owning religion group.
    pub group: Option<String>,
    pub raw_extra: Vec<String>,
    pub raw: String,
}

/// A family's meta and its entities.
#[derive(Debug)]
pub struct MechanicsData {
    pub meta: FamilyMeta,
    pub objects: Vec<MechanicObject>,
}

/// The spec view of an entity.
pub struct ObjectView {
    pub family: Seq<char>,
    pub key: Seq<char>,
    pub edit_key: Seq<char>,
    pub file: Seq<char>,
    pub origin: Seq<char>,
    pub name: Seq<char>,
    pub name_key: Seq<char>,
    pub desc_key: Seq<char>,
    pub desc_loc: Option<Seq<char>>,
    pub icon: Option<Seq<char>>,
    pub icon_kind: Seq<char>,
    pub color: Option<[u8; 3]>,
    pub scalars: Seq<(Seq<char>, Seq<char>, bool, Seq<char>, Seq<Seq<char>>, Seq<char>)>,
    pub modifier_blocks: Seq<(Seq<char>, bool, bool, Seq<(Seq<char>, Seq<char>)>)>,
    pub list_fields: Seq<(Seq<char>, bool, Seq<char>, Seq<Seq<char>>)>,
    pub self_modifier: bool,
    pub self_rows: Seq<(Seq<char>, Seq<char>)>,
    pub script_blocks: Seq<(Seq<char>, Seq<char>, bool)>,
    pub ordered: bool,
    pub ordered_children: Seq<(Seq<char>, bool, Seq<(Seq<char>, Seq<char>)>)>,
    pub sub_groups: Seq<SubGroupDataView>,
    pub event_refs: Seq<(Seq<char>, Seq<char>)>,
    pub group: Option<Seq<char>>,
    pub raw_extra: Seq<Seq<char>>,
    pub raw: Seq<char>,
}

pub open spec fn object_view(o: MechanicObject) -> ObjectView {
    ObjectView {
        family: o.family@,
        key: o.key@,
        edit_key: o.edit_key@,
        file: o.file@,
        origin: o.origin@,
        name: o.name@,
        name_key: o.name_key@,
        desc_key: o.desc_key@,
        desc_loc: opt_view(o.desc_loc),
        icon: opt_view(o.icon),
        icon_kind: o.icon_kind@,
        color: o.color,
        scalars: scalars_view(o.scalars@),
        modifier_blocks: modifiers_view(o.modifier_blocks@),
        list_fields: lists_view(o.list_fields@),
        self_modifier: o.self_modifier,
        self_rows: rows_view(o.self_rows@),
        script_blocks: scripts_view(o.script_blocks@),
        ordered: o.ordered,
        ordered_children: steps_view(o.ordered_children@),
        sub_groups: sub_groups_data_view(o.sub_groups@),
        event_refs: event_refs_view(o.event_refs@),
        group: opt_view(o.group),
        raw_extra: strings_of(o.raw_extra@),
        raw: o.raw@,
    }
}

pub open spec fn str_opt(o: Option<&str>) -> Option<Seq<char>> {
    match o {
        Some(s) => Some(s@),
        None => None,
    }
}

/// The entity of family `f` read from the block `b` keyed `key` (addressed
/// as `edit_key`, under `group` when group-nested) in a file with bytes
/// `src`, given the localisation pairs and the colour read from its `color`
/// block.
pub open spec fn object_spec(
    src: Seq<u8>,
    key: Seq<char>,
    edit_key: Seq<char>,
    b: Block,
    loc: Seq<(Seq<char>, Seq<char>)>,
    file: Seq<char>,
    origin: Seq<char>,
    f: FamilyView,
    group: Option<Seq<char>>,
    color: Option<[u8; 3]>,
) -> ObjectView {
    let items = b.items@;
    let st = structural_spec(f);
    let self_rows = if f.self_modifier { self_rows_spec(items, st) } else { Seq::empty() };
    let children = if f.ordered { ordered_spec(items, st) } else { Seq::empty() };
    let base = span_path_spec(group, edit_key);
    ObjectView {
        family: f.id,
        key,
        edit_key,
        file,
        origin,
        name: resolve_spec(loc, key),
        name_key: key,
        desc_key: desc_key_spec(f, key),
        desc_loc: loc_get(loc, desc_key_spec(f, key)),
        icon: if f.icon != "none"@ { trimmed_value(items, "icon"@) } else { None },
        icon_kind: f.icon,
        color: if f.has_color { color } else { None },
        scalars: f.scalars.map_values(|s: (Seq<char>, Seq<char>, Seq<Seq<char>>, Seq<char>)| scalar_spec(items, s)),
        modifier_blocks: f.modifiers.map_values(|n: Seq<char>| modifier_spec(items, n)),
        list_fields: f.list_fields.map_values(|l: (Seq<char>, Seq<char>)| list_field_spec(items, l)),
        self_modifier: f.self_modifier,
        self_rows,
        script_blocks: f.scripts.map_values(|s: (Seq<char>, Seq<char>)| script_spec(items, s)),
        ordered: f.ordered,
        ordered_children: children,
        sub_groups: sub_groups_spec(f.id).map_values(|g: SubGroupSpec| sub_group_spec(src, base, g, loc, items)),
        event_refs: event_refs_spec(items, f.event_ref_keys),
        group,
        raw_extra: unmodeled_keys(
            items,
            st + self_rows.map_values(|r: (Seq<char>, Seq<char>)| row_key(r))
                + children.map_values(|s: (Seq<char>, bool, Seq<(Seq<char>, Seq<char>)>)| step_key(s)),
        ),
        raw: raw_text(src, text_path(base)),
    }
}

/// Reads one entity of a family: icon, colour, typed scalars, modifier
/// blocks, list fields, self-modifier rows, script blocks, ordered steps,
/// sub-entry containers, event-id references, the unmodeled keys and the
/// raw block text, with its name and desc resolved against `loc`.
pub fn parse_object(
    file_bytes: &[u8],
    key: &str,
    edit_key: &str,
    b: &Block,
    loc: &[(String, String)],
    file: &str,
    origin: &str,
    fam: &Family,
    group: Option<&str>,
    color: Option<[u8; 3]>,
) -> (r: MechanicObject)
    ensures
        object_view(r) == object_spec(file_bytes@, key@, edit_key@, *b, loc_view(loc@), file@, origin@, family_view(*fam), str_opt(group), color),
{
    let ghost fv = family_view(*fam);
    let icon = if !str_eq(fam.icon, "none") { trimmed_scalar(b, "icon") } else { None };
    let color = if fam.has_color { color } else { None };
    let scalars = scalars_of(b, &fam.scalars);
    let modifier_blocks = modifier_blocks_of(b, &fam.modifiers);
    let list_fields = lists_of(b, &fam.list_fields);
    let script_blocks = scripts_of(b, &fam.scripts);
    let groups = family_sub_groups(fam.id);
    let structural = structural_keys(fam, &groups);
    let self_rows = if fam.self_modifier {
        self_rows_of(b, &structural)
    } else {
        let v: Vec<ModRow> = Vec::new();
        assert(rows_view(v@) =~= Seq::<(Seq<char>, Seq<char>)>::empty());
        v
    };
    let ordered_children = if fam.ordered {
        ordered_of(b, &structural)
    } else {
        let v: Vec<ReformStep> = Vec::new();
        assert(steps_view(v@) =~= Seq::<(Seq<char>, bool, Seq<(Seq<char>, Seq<char>)>)>::empty());
        v
    };
    let mut span_path: Vec<String> = Vec::new();
    match group {
        Some(g) => {
            span_path.push(g.to_string());
            span_path.push(String::from_str("religious_schools"));
            span_path.push(edit_key.to_string());
        },
        None => {
            span_path.push(edit_key.to_string());
        },
    }
    assert(strings_of(span_path@) =~= span_path_spec(str_opt(group), edit_key@));
    assert(string_path(span_path@) =~= text_path(span_path_spec(str_opt(group), edit_key@)));
    let sub_groups = sub_groups_of(file_bytes, &span_path, &groups, b, loc);
    let event_refs = event_refs_of(b, &fam.event_ref_keys);
    let mut modeled = owned_strs(&structural);
    append_row_keys(&mut modeled, &self_rows);
    append_step_keys(&mut modeled, &ordered_children);
    let raw_extra = unmodeled_strings(b, &modeled);
    let raw = raw_block(file_bytes, span_path.as_slice());
    let desc_key = desc_key_of(fam, key);
    let desc_loc = loc_lookup(loc, &desc_key);
    let r = MechanicObject {
        family: fam.id.to_string(),
        key: key.to_string(),
        edit_key: edit_key.to_string(),
        file: file.to_string(),
        origin: origin.to_string(),
        name: loc_resolve(loc, key),
        name_key: key.to_string(),
        desc_key,
        desc_loc,
        icon,
        icon_kind: fam.icon.to_string(),
        color,
        scalars,
        modifier_blocks,
        list_fields,
        self_modifier: fam.self_modifier,
        self_rows,
        script_blocks,
        ordered: fam.ordered,
        ordered_children,
        sub_groups,
        event_refs,
        group: match group {
            Some(g) => Some(g.to_string()),
            None => None,
        },
        raw_extra,
        raw,
    };
    assert(object_view(r) =~~= object_spec(file_bytes@, key@, edit_key@, *b, loc_view(loc@), file@, origin@, fv, str_opt(group), color));
    r
}

// ---------------------------------------------------------------------------
// A file's entities
// ---------------------------------------------------------------------------

pub open spec fn objects_view(v: Seq<MechanicObject>) -> Seq<ObjectView> {
    v.map_values(|o: MechanicObject| object_view(o))
}

/// The number of `true`s.
pub open spec fn count_true(bs: Seq<bool>) -> nat
    decreases bs.len(),
{
    if bs.len() == 0 {
        0
    } else {
        count_true(bs.drop_last()) + if bs.last() { 1nat } else { 0nat }
    }
}

pub open spec fn scalar_present(s: (Seq<char>, Seq<char>, bool, Seq<char>, Seq<Seq<char>>, Seq<char>)) -> bool {
    s.2
}

pub open spec fn script_present(s: (Seq<char>, Seq<char>, bool)) -> bool {
    s.2
}

pub open spec fn modifier_present(m: (Seq<char>, bool, bool, Seq<(Seq<char>, Seq<char>)>)) -> bool {
    m.1
}

pub open spec fn list_present(l: (Seq<char>, bool, Seq<char>, Seq<Seq<char>>)) -> bool {
    l.1
}

/// How much modeled surface an entity exposes: its self-modifier rows, the
/// present scalars, script blocks, modifier blocks and list fields, and its
/// unmodeled keys.
pub open spec fn richness_spec(o: ObjectView) -> nat {
    o.self_rows.len()
        + count_true(o.scalars.map_values(|s: (Seq<char>, Seq<char>, bool, Seq<char>, Seq<Seq<char>>, Seq<char>)| scalar_present(s)))
        + count_true(o.script_blocks.map_values(|s: (Seq<char>, Seq<char>, bool)| script_present(s)))
        + count_true(o.modifier_blocks.map_values(|m: (Seq<char>, bool, bool, Seq<(Seq<char>, Seq<char>)>)| modifier_present(m)))
        + count_true(o.list_fields.map_values(|l: (Seq<char>, bool, Seq<char>, Seq<Seq<char>>)| list_present(l)))
        + o.raw_extra.len()
}

proof fn lemma_count_true_le(bs: Seq<bool>)
    ensures
        count_true(bs) <= bs.len(),
    decreases bs.len(),
{
    if bs.len() > 0 {
        lemma_count_true_le(bs.drop_last());
    }
}

fn count_scalars(v: &Vec<Scalar>) -> (r: usize)
    ensures
        r == count_true(scalars_view(v@).map_values(|s: (Seq<char>, Seq<char>, bool, Seq<char>, Seq<Seq<char>>, Seq<char>)| scalar_present(s))),
{
    let ghost flags = scalars_view(v@).map_values(|s: (Seq<char>, Seq<char>, bool, Seq<char>, Seq<Seq<char>>, Seq<char>)| scalar_present(s));
    let mut n: usize = 0;
    let mut i: usize = 0;
    while i < v.len()
        invariant
            i <= v@.len(),
            flags == scalars_view(v@).map_values(|s: (Seq<char>, Seq<char>, bool, Seq<char>, Seq<Seq<char>>, Seq<char>)| scalar_present(s)),
            n == count_true(flags.subrange(0, i as int)),
            n <= i,
        decreases v@.len() - i,
    {
        assert(flags.subrange(0, i + 1).drop_last() =~= flags.subrange(0, i as int));
        if v[i].present {
            n = n + 1;
        }
        i = i + 1;
    }
    assert(flags.subrange(0, v@.len() as int) =~= flags);
    n
}

fn count_scripts(v: &Vec<ScriptBlockRef>) -> (r: usize)
    ensures
        r == count_true(scripts_view(v@).map_values(|s: (Seq<char>, Seq<char>, bool)| script_present(s))),
{
    let ghost flags = scripts_view(v@).map_values(|s: (Seq<char>, Seq<char>, bool)| script_present(s));
    let mut n: usize = 0;
    let mut i: usize = 0;
    while i < v.len()
        invariant
            i <= v@.len(),
            flags == scripts_view(v@).map_values(|s: (Seq<char>, Seq<char>, bool)| script_present(s)),
            n == count_true(flags.subrange(0, i as int)),
            n <= i,
        decreases v@.len() - i,
    {
        assert(flags.subrange(0, i + 1).drop_last() =~= flags.subrange(0, i as int));
        if v[i].present {
            n = n + 1;
        }
        i = i + 1;
    }
    assert(flags.subrange(0, v@.len() as int) =~= flags);
    n
}

fn count_modifiers(v: &Vec<ModifierBlock>) -> (r: usize)
    ensures
        r == count_true(modifiers_view(v@).map_values(|m: (Seq<char>, bool, bool, Seq<(Seq<char>, Seq<char>)>)| modifier_present(m))),
{
    let ghost flags = modifiers_view(v@).map_values(|m: (Seq<char>, bool, bool, Seq<(Seq<char>, Seq<char>)>)| modifier_present(m));
    let mut n: usize = 0;
    let mut i: usize = 0;
    while i < v.len()
        invariant
            i <= v@.len(),
            flags == modifiers_view(v@).map_values(|m: (Seq<char>, bool, bool, Seq<(Seq<char>, Seq<char>)>)| modifier_present(m)),
            n == count_true(flags.subrange(0, i as int)),
            n <= i,
        decreases v@.len() - i,
    {
        assert(flags.subrange(0, i + 1).drop_last() =~= flags.subrange(0, i as int));
        if v[i].present {
            n = n + 1;
        }
        i = i + 1;
    }
    assert(flags.subrange(0, v@.len() as int) =~= flags);
    n
}

fn count_lists(v: &Vec<ListField>) -> (r: usize)
    ensures
        r == count_true(lists_view(v@).map_values(|l: (Seq<char>, bool, Seq<char>, Seq<Seq<char>>)| list_present(l))),
{
    let ghost flags = lists_view(v@).map_values(|l: (Seq<char>, bool, Seq<char>, Seq<Seq<char>>)| list_present(l));
    let mut n: usize = 0;
    let mut i: usize = 0;
    while i < v.len()
        invariant
            i <= v@.len(),
            flags == lists_view(v@).map_values(|l: (Seq<char>, bool, Seq<char>, Seq<Seq<char>>)| list_present(l)),
            n == count_true(flags.subrange(0, i as int)),
            n <= i,
        decreases v@.len() - i,
    {
        assert(flags.subrange(0, i + 1).drop_last() =~= flags.subrange(0, i as int));
        if v[i].present {
            n = n + 1;
        }
        i = i + 1;
    }
    assert(flags.subrange(0, v@.len() as int) =~= flags);
    n
}

/// The richness of an entity (see [`richness_spec`]), exact in `u128`.
fn richness(o: &MechanicObject) -> (r: u128)
    ensures
        r == richness_spec(object_view(*o)),
{
    let a = o.self_rows.len() as u128;
    let b = count_scalars(&o.scalars) as u128;
    let c = count_scripts(&o.script_blocks) as u128;
    let d = count_modifiers(&o.modifier_blocks) as u128;
    let e = count_lists(&o.list_fields) as u128;
    let f = o.raw_extra.len() as u128;
    assert(rows_view(o.self_rows@).len() == o.self_rows@.len());
    assert(strings_of(o.raw_extra@).len() == o.raw_extra@.len());
    a + b + c + d + e + f
}

/// The index of the first entity keyed `key`.
pub open spec fn index_of_key(os: Seq<ObjectView>, key: Seq<char>) -> Option<int>
    decreases os.len(),
{
    if os.len() == 0 {
        None
    } else {
        match index_of_key(os.drop_last(), key) {
            Some(i) => Some(i),
            None => if os.last().key == key { Some(os.len() - 1) } else { None },
        }
    }
}

/// The richest entity per key (the first of equally rich ones), in the
/// order keys first appear.
pub open spec fn dedup_objects(os: Seq<ObjectView>) -> Seq<ObjectView>
    decreases os.len(),
{
    if os.len() == 0 {
        Seq::empty()
    } else {
        let rest = dedup_objects(os.drop_last());
        let o = os.last();
        match index_of_key(rest, o.key) {
            Some(i) => if richness_spec(rest[i]) >= richness_spec(o) { rest } else { rest.update(i, o) },
            None => rest.push(o),
        }
    }
}

proof fn lemma_index_of_key(os: Seq<ObjectView>, key: Seq<char>)
    ensures
        index_of_key(os, key) matches Some(i) ==> 0 <= i < os.len() && os[i].key == key,
        index_of_key(os, key) is None ==> forall|j: int| 0 <= j < os.len() ==> os[j].key != key,
    decreases os.len(),
{
    if os.len() > 0 {
        lemma_index_of_key(os.drop_last(), key);
        if index_of_key(os.drop_last(), key) is None {
            assert forall|j: int| 0 <= j < os.len() - 1 implies os[j].key != key by {
                assert(os.drop_last()[j] == os[j]);
            }
        }
    }
}

fn find_key(out: &Vec<MechanicObject>, key: &String) -> (r: Option<usize>)
    ensures
        r == match index_of_key(objects_view(out@), key@) {
            Some(i) => Some(i as usize),
            None => None::<usize>,
        },
{
    let ghost ov = objects_view(out@);
    let mut i: usize = 0;
    while i < out.len()
        invariant
            i <= out@.len(),
            ov == objects_view(out@),
            index_of_key(ov.subrange(0, i as int), key@) is None,
        decreases out@.len() - i,
    {
        assert(ov.subrange(0, i + 1).drop_last() =~= ov.subrange(0, i as int));
        assert(ov.subrange(0, i + 1).last() == object_view(out@[i as int]));
        if str_eq(out[i].key.as_str(), key.as_str()) {
            proof {
                lemma_index_prefix(ov, key@, i as int + 1);
            }
            return Some(i);
        }
        i = i + 1;
    }
    assert(ov.subrange(0, out@.len() as int) =~= ov);
    None
}

proof fn lemma_index_prefix(os: Seq<ObjectView>, key: Seq<char>, n: int)
    requires
        0 < n <= os.len(),
        index_of_key(os.subrange(0, n), key) matches Some(i),
    ensures
        index_of_key(os, key) == index_of_key(os.subrange(0, n), key),
    decreases os.len() - n,
{
    if n < os.len() {
        assert(os.subrange(0, n + 1).drop_last() =~= os.subrange(0, n));
        lemma_index_prefix(os, key, n + 1);
    } else {
        assert(os.subrange(0, n) =~= os);
    }
}

/// Deduplicating keeps no key twice.
pub proof fn lemma_dedup_keys_distinct(os: Seq<ObjectView>)
    ensures
        forall|i: int, j: int| 0 <= i < j < dedup_objects(os).len() ==> (#[trigger] dedup_objects(os)[i]).key != (#[trigger] dedup_objects(os)[j]).key,
    decreases os.len(),
{
    if os.len() > 0 {
        let p = os.drop_last();
        lemma_dedup_keys_distinct(p);
        let rest = dedup_objects(p);
        let o = os.last();
        let r = dedup_objects(os);
        lemma_index_of_key(rest, o.key);
        match index_of_key(rest, o.key) {
            Some(i) => {
                if richness_spec(rest[i]) < richness_spec(o) {
                    assert forall|a: int, b: int| 0 <= a < b < r.len() implies (#[trigger] r[a]).key != (#[trigger] r[b]).key by {
                        assert(r[a].key == rest[a].key && r[b].key == rest[b].key);
                    }
                }
            },
            None => {
                assert forall|a: int, b: int| 0 <= a < b < r.len() implies (#[trigger] r[a]).key != (#[trigger] r[b]).key by {
                    assert(r[a] == rest[a]);
                    if b < rest.len() {
                        assert(r[b] == rest[b]);
                    }
                }
            },
        }
    }
}

/// Deduplicating keeps every key of the input, by an entity at least as
/// rich as any input entity with that key.
pub proof fn lemma_dedup_keeps_richest(os: Seq<ObjectView>, j: int)
    requires
        0 <= j < os.len(),
    ensures
        exists|i: int| 0 <= i < dedup_objects(os).len() && (#[trigger] dedup_objects(os)[i]).key == os[j].key
            && richness_spec(dedup_objects(os)[i]) >= richness_spec(os[j]),
    decreases os.len(),
{
    let p = os.drop_last();
    let rest = dedup_objects(p);
    let o = os.last();
    let r = dedup_objects(os);
    lemma_index_of_key(rest, o.key);
    if j == os.len() - 1 {
        match index_of_key(rest, o.key) {
            Some(i) => {
                assert(r[i].key == os[j].key);
            },
            None => {
                assert(r[rest.len() as int] == o);
            },
        }
    } else {
        lemma_dedup_keeps_richest(p, j);
        assert(p[j] == os[j]);
        let k = choose|k: int| 0 <= k < rest.len() && (#[trigger] rest[k]).key == p[j].key && richness_spec(rest[k]) >= richness_spec(p[j]);
        match index_of_key(rest, o.key) {
            Some(i) => {
                if richness_spec(rest[i]) >= richness_spec(o) {
                    assert(r[k] == rest[k]);
                } else if k == i {
                    assert(r[k] == o);
                } else {
                    assert(r[k] == rest[k]);
                }
            },
            None => {
                assert(r[k] == rest[k]);
            },
        }
    }
}

/// Every entity deduplicating keeps is one of the input's.
pub proof fn lemma_dedup_from_input(os: Seq<ObjectView>, i: int)
    requires
        0 <= i < dedup_objects(os).len(),
    ensures
        exists|j: int| 0 <= j < os.len() && dedup_objects(os)[i] == #[trigger] os[j],
    decreases os.len(),
{
    let p = os.drop_last();
    let rest = dedup_objects(p);
    let o = os.last();
    let r = dedup_objects(os);
    lemma_index_of_key(rest, o.key);
    let from_rest = match index_of_key(rest, o.key) {
        Some(k) => richness_spec(rest[k]) >= richness_spec(o) || k != i,
        None => i < rest.len(),
    };
    if from_rest {
        assert(r[i] == rest[i]);
        lemma_dedup_from_input(p, i);
        let j = choose|j: int| 0 <= j < p.len() && rest[i] == #[trigger] p[j];
        assert(p[j] == os[j]);
    } else {
        assert(r[i] == os[os.len() - 1]);
    }
}

/// Keeps only the richest entity per key (see [`dedup_objects`]).
pub fn dedup_richest(objects: Vec<MechanicObject>) -> (r: Vec<MechanicObject>)
    ensures
        objects_view(r@) == dedup_objects(objects_view(objects@)),
{
    let ghost all = objects_view(objects@);
    let mut rest = objects;
    let mut out: Vec<MechanicObject> = Vec::new();
    let ghost mut n: int = 0;
    assert(all.skip(0) =~= all);
    while rest.len() > 0
        invariant
            0 <= n <= all.len(),
            objects_view(rest@) == all.skip(n),
            objects_view(out@) == dedup_objects(all.take(n)),
        decreases rest@.len(),
    {
        let ghost before = out@;
        let ghost pre = rest@;
        assert(objects_view(pre).len() == pre.len());
        let o = rest.remove(0);
        assert(rest@ =~= pre.skip(1));
        assert(objects_view(pre)[0] == object_view(pre[0]));
        assert(all.skip(n)[0] == all[n]);
        assert(objects_view(rest@) =~= objects_view(pre).skip(1));
        assert(objects_view(pre).skip(1) =~= all.skip(n + 1));
        assert(object_view(o) == all[n]);
        assert(all.take(n + 1).drop_last() =~= all.take(n));
        assert(all.take(n + 1).last() == all[n]);
        let out_len = out.len();
        assert(objects_view(out@).len() == out_len);
        match find_key(&out, &o.key) {
            Some(i) => {
                proof {
                    lemma_index_of_key(objects_view(out@), o.key@);
                }
                assert(objects_view(out@)[i as int] == object_view(out@[i as int]));
                assert(object_view(o).key == o.key@);
                let ghost j = index_of_key(objects_view(out@), o.key@)->0;
                assert(0 <= j < objects_view(out@).len());
                assert(j as usize == i);
                assert(index_of_key(objects_view(out@), o.key@) == Some(i as int));
                assert(out@ == before);
                assert(all[n].key == o.key@);
                assert(index_of_key(objects_view(before), all[n].key) == Some(i as int));
                assert(dedup_objects(all.take(n + 1)) == (if richness_spec(objects_view(before)[i as int]) >= richness_spec(all[n]) {
                    objects_view(before)
                } else {
                    objects_view(before).update(i as int, all[n])
                }));
                if richness(&out[i]) < richness(&o) {
                    out.set(i, o);
                    assert(objects_view(out@) =~= objects_view(before).update(i as int, object_view(o)));
                }
            },
            None => {
                assert(dedup_objects(all.take(n + 1)) == objects_view(before).push(all[n]));
                out.push(o);
                assert(objects_view(out@) =~= objects_view(before).push(object_view(o)));
            },
        }
        proof {
            n = n + 1;
        }
    }
    assert(all.take(n) =~= all);
    out
}

/// The number of keyed blocks among `kids` keyed `key`.
pub open spec fn key_count(kids: Seq<(Seq<char>, Block)>, key: Seq<char>) -> nat
    decreases kids.len(),
{
    if kids.len() == 0 {
        0
    } else {
        key_count(kids.drop_last(), key) + if kids.last().0 == key { 1nat } else { 0nat }
    }
}

/// Whether the family loads a block: idea groups only those declaring a
/// `category` (the generic, pickable groups).
pub open spec fn filter_spec(id: Seq<char>, b: Block) -> bool {
    if id == "idea_groups"@ {
        scalar_value(b.items@, "category"@) is Some
    } else {
        true
    }
}

fn family_filter(id: &str, b: &Block) -> (r: bool)
    ensures
        r == filter_spec(id@, *b),
{
    if str_eq(id, "idea_groups") {
        b.get_scalar("category").is_some()
    } else {
        true
    }
}

/// The colour read for the `i`-th keyed block, when one was given.
pub open spec fn color_at(colors: Seq<Option<[u8; 3]>>, i: int) -> Option<[u8; 3]> {
    if 0 <= i < colors.len() {
        colors[i]
    } else {
        None
    }
}

/// The entities of a file's keyed blocks `kids`: each block not excluded nor
/// filtered out, addressed as `key#n` when it is the nth (n > 0) block of
/// that key in the file.
pub open spec fn block_objects(
    src: Seq<u8>,
    kids: Seq<(Seq<char>, Block)>,
    rel: Seq<char>,
    origin: Seq<char>,
    f: FamilyView,
    loc: Seq<(Seq<char>, Seq<char>)>,
    colors: Seq<Option<[u8; 3]>>,
) -> Seq<ObjectView>
    decreases kids.len(),
{
    if kids.len() == 0 {
        Seq::empty()
    } else {
        let rest = block_objects(src, kids.drop_last(), rel, origin, f, loc, colors);
        let key = kids.last().0;
        let b = kids.last().1;
        if exclude_spec(f.id).contains(key) || !filter_spec(f.id, b) {
            rest
        } else {
            let edit_key = segment_spec(key, key_count(kids.drop_last(), key));
            rest.push(object_spec(src, key, edit_key, b, loc, rel, origin, f, None, color_at(colors, kids.len() - 1)))
        }
    }
}

/// The entities of a parsed file: its keyed blocks read in order.
pub open spec fn file_objects_spec(
    src: Seq<u8>,
    items: Seq<(Option<String>, Value)>,
    rel: Seq<char>,
    origin: Seq<char>,
    f: FamilyView,
    loc: Seq<(Seq<char>, Seq<char>)>,
    colors: Seq<Option<[u8; 3]>>,
) -> Seq<ObjectView> {
    block_objects(src, keyed_blocks(items), rel, origin, f, loc, colors)
}

fn excluded(id: &str, key: &str) -> (r: bool)
    ensures
        r == exclude_spec(id@).contains(key@),
{
    let r = if str_eq(id, "governments") {
        str_eq(key, "pre_dharma_mapping")
    } else if str_eq(id, "subject_types") {
        str_eq(key, "default") || str_eq(key, "dummy")
    } else {
        false
    };
    proof {
        let ex = exclude_spec(id@);
        if r {
            if id@ == "governments"@ {
                assert(ex[0] == key@);
            } else if key@ == "default"@ {
                assert(ex[0] == key@);
            } else {
                assert(ex[1] == key@);
            }
        }
        if ex.contains(key@) {
            let k = choose|k: int| 0 <= k < ex.len() && ex[k] == key@;
            assert(ex[k] == key@);
        }
    }
    r
}

/// The entities of family `fam` in a parsed file `block` whose bytes are
/// `file_bytes`, at project path `rel`; `colors[i]` is the colour read from
/// the `i`-th keyed block's `color` block (none past its end).
pub fn objects_of_block(
    file_bytes: &[u8],
    block: &Block,
    rel: &str,
    origin: &str,
    fam: &Family,
    loc: &[(String, String)],
    colors: &[Option<[u8; 3]>],
) -> (r: Vec<MechanicObject>)
    ensures
        objects_view(r@) == file_objects_spec(file_bytes@, block.items@, rel@, origin@, family_view(*fam), loc_view(loc@), colors@),
{
    let ghost fv = family_view(*fam);
    let ghost ks = keyed_blocks(block.items@);
    let kids = block.key_blocks();
    let mut out: Vec<MechanicObject> = Vec::new();
    let mut i: usize = 0;
    while i < kids.len()
        invariant
            i <= kids@.len(),
            kids@.len() == ks.len(),
            ks == keyed_blocks(block.items@),
            fv == family_view(*fam),
            forall|k: int| 0 <= k < kids@.len() ==> (#[trigger] kids@[k]).0@ == ks[k].0 && *kids@[k].1 == ks[k].1,
            objects_view(out@) == block_objects(file_bytes@, ks.subrange(0, i as int), rel@, origin@, fv, loc_view(loc@), colors@),
        decreases kids@.len() - i,
    {
        let ghost before = out@;
        let ghost sub = ks.subrange(0, i + 1);
        assert(sub.drop_last() =~= ks.subrange(0, i as int));
        assert(sub.last() == ks[i as int]);
        let (key, b) = kids[i];
        let mut occ: usize = 0;
        let mut j: usize = 0;
        while j < i
            invariant
                j <= i < kids@.len(),
                kids@.len() == ks.len(),
                forall|k: int| 0 <= k < kids@.len() ==> (#[trigger] kids@[k]).0@ == ks[k].0 && *kids@[k].1 == ks[k].1,
                key@ == ks[i as int].0,
                occ == key_count(ks.subrange(0, j as int), key@),
                occ <= j,
            decreases i - j,
        {
            assert(ks.subrange(0, j + 1).drop_last() =~= ks.subrange(0, j as int));
            assert(ks.subrange(0, j + 1).last() == ks[j as int]);
            if str_eq(kids[j].0, key) {
                occ = occ + 1;
            }
            j = j + 1;
        }
        if !excluded(fam.id, key) && family_filter(fam.id, b) {
            let edit_key = segment(key, occ);
            let color = if i < colors.len() { colors[i] } else { None };
            let o = parse_object(file_bytes, key, edit_key.as_str(), b, loc, rel, origin, fam, None, color);
            out.push(o);
            assert(objects_view(out@) =~= objects_view(before).push(object_view(o)));
        }
        i = i + 1;
    }
    assert(ks.subrange(0, kids@.len() as int) =~= ks);
    out
}

/// The entities of family `fam` in a file with bytes `file_bytes` at
/// project path `rel`: the file is decoded (lossily) and parsed, then read
/// as [`objects_of_block`] does.
pub fn objects_of_file(
    file_bytes: &[u8],
    rel: &str,
    origin: &str,
    fam: &Family,
    loc: &[(String, String)],
    colors: &[Option<[u8; 3]>],
) -> (r: Vec<MechanicObject>)
    ensures
        exists|b: Block| #![auto] b.vview() == parse_spec(lossy_utf8(file_bytes@))
            && objects_view(r@) == file_objects_spec(file_bytes@, b.items@, rel@, origin@, family_view(*fam), loc_view(loc@), colors@),
{
    let text = lossy_string(file_bytes);
    let block = parse(text.as_str());
    let r = objects_of_block(file_bytes, &block, rel, origin, fam, loc, colors);
    assert(block.vview() == parse_spec(lossy_utf8(file_bytes@)));
    r
}

/// The religious schools of a parsed `common/religions` file:
/// `<group> = { religious_schools = { <school> = { … } } }`, each read with
/// its group (schools carry no colour).
pub open spec fn school_objects(
    src: Seq<u8>,
    groups: Seq<(Seq<char>, Block)>,
    rel: Seq<char>,
    origin: Seq<char>,
    f: FamilyView,
    loc: Seq<(Seq<char>, Seq<char>)>,
) -> Seq<ObjectView>
    decreases groups.len(),
{
    if groups.len() == 0 {
        Seq::empty()
    } else {
        let rest = school_objects(src, groups.drop_last(), rel, origin, f, loc);
        let g = groups.last();
        match named_block(g.1.items@, "religious_schools"@) {
            Some(schools) => rest + keyed_blocks(schools.items@).map_values(
                |c: (Seq<char>, Block)| object_spec(src, c.0, c.0, c.1, loc, rel, origin, f, Some(g.0), None),
            ),
            None => rest,
        }
    }
}

/// The religious schools of family `fam` in a parsed religions file.
pub fn schools_of_block(
    file_bytes: &[u8],
    block: &Block,
    rel: &str,
    origin: &str,
    fam: &Family,
    loc: &[(String, String)],
) -> (r: Vec<MechanicObject>)
    ensures
        objects_view(r@) == school_objects(file_bytes@, keyed_blocks(block.items@), rel@, origin@, family_view(*fam), loc_view(loc@)),
{
    let ghost fv = family_view(*fam);
    let ghost ks = keyed_blocks(block.items@);
    let groups = block.key_blocks();
    let mut out: Vec<MechanicObject> = Vec::new();
    let mut i: usize = 0;
    while i < groups.len()
        invariant
            i <= groups@.len(),
            groups@.len() == ks.len(),
            ks == keyed_blocks(block.items@),
            fv == family_view(*fam),
            forall|k: int| 0 <= k < groups@.len() ==> (#[trigger] groups@[k]).0@ == ks[k].0 && *groups@[k].1 == ks[k].1,
            objects_view(out@) == school_objects(file_bytes@, ks.subrange(0, i as int), rel@, origin@, fv, loc_view(loc@)),
        decreases groups@.len() - i,
    {
        let ghost sub = ks.subrange(0, i + 1);
        assert(sub.drop_last() =~= ks.subrange(0, i as int));
        assert(sub.last() == ks[i as int]);
        let (gkey, gb) = groups[i];
        match gb.get_block("religious_schools") {
            Some(schools) => {
                let ghost start = objects_view(out@);
                let ghost cs = keyed_blocks(schools.items@);
                let ghost want = cs.map_values(
                    |c: (Seq<char>, Block)| object_spec(file_bytes@, c.0, c.0, c.1, loc_view(loc@), rel@, origin@, fv, Some(gkey@), None),
                );
                let kids = schools.key_blocks();
                let mut j: usize = 0;
                while j < kids.len()
                    invariant
                        j <= kids@.len(),
                        kids@.len() == cs.len(),
                        cs == keyed_blocks(schools.items@),
                        fv == family_view(*fam),
                        forall|k: int| 0 <= k < kids@.len() ==> (#[trigger] kids@[k]).0@ == cs[k].0 && *kids@[k].1 == cs[k].1,
                        want == cs.map_values(
                            |c: (Seq<char>, Block)| object_spec(file_bytes@, c.0, c.0, c.1, loc_view(loc@), rel@, origin@, fv, Some(gkey@), None),
                        ),
                        objects_view(out@) == start + want.subrange(0, j as int),
                    decreases kids@.len() - j,
                {
                    let ghost before = out@;
                    let (skey, sb) = kids[j];
                    let o = parse_object(file_bytes, skey, skey, sb, loc, rel, origin, fam, Some(gkey), None);
                    out.push(o);
                    assert(objects_view(out@) =~= objects_view(before).push(object_view(o)));
                    assert(objects_view(out@) =~= start + want.subrange(0, j + 1));
                    j = j + 1;
                }
                assert(want.subrange(0, kids@.len() as int) =~= want);
            },
            None => {},
        }
        i = i + 1;
    }
    assert(ks.subrange(0, groups@.len() as int) =~= ks);
    out
}

// ---------------------------------------------------------------------------
// Event cross-reference
// ---------------------------------------------------------------------------

/// A file under `events/` that names a mechanic's key.
#[derive(Debug)]
pub struct MechanicEventRef {
    pub file: String,
    pub origin: String,
    /// Number of times the key appears as a whole word in the file.
    pub count: usize,
}

/// An identifier byte: ASCII letter, digit or `_`.
pub open spec fn is_ident_byte(c: u8) -> bool {
    (48 <= c <= 57) || (65 <= c <= 90) || (97 <= c <= 122) || c == 95
}

/// Whether `w` occurs in `t` at `p` as a whole word (not preceded nor
/// followed by an identifier byte).
pub open spec fn word_at(t: Seq<u8>, w: Seq<u8>, p: int) -> bool {
    &&& 0 <= p
    &&& p + w.len() <= t.len()
    &&& t.subrange(p, p + w.len()) == w
    &&& (p == 0 || !is_ident_byte(t[p - 1]))
    &&& (p + w.len() >= t.len() || !is_ident_byte(t[p + w.len()]))
}

/// The number of whole-word occurrences of `w` in `t` starting before `n`.
pub open spec fn words_before(t: Seq<u8>, w: Seq<u8>, n: int) -> nat
    decreases n,
{
    if n <= 0 {
        0
    } else {
        words_before(t, w, n - 1) + if word_at(t, w, n - 1) { 1nat } else { 0nat }
    }
}

/// The number of whole-word occurrences of `w` in `t` (none of an empty
/// word).
pub open spec fn count_word_spec(t: Seq<u8>, w: Seq<u8>) -> nat {
    if w.len() == 0 {
        0
    } else {
        words_before(t, w, t.len() as int)
    }
}

fn is_ident(c: u8) -> (r: bool)
    ensures
        r == is_ident_byte(c),
{
    (48 <= c && c <= 57) || (65 <= c && c <= 90) || (97 <= c && c <= 122) || c == 95
}

fn matches_at(t: &[u8], w: &[u8], p: usize) -> (r: bool)
    requires
        p + w@.len() <= t@.len(),
    ensures
        r == (t@.subrange(p as int, p + w@.len()) == w@),
{
    let tl = t.len();
    let mut k: usize = 0;
    while k < w.len()
        invariant
            k <= w@.len(),
            p + w@.len() <= t@.len(),
            t@.len() == tl,
            forall|m: int| 0 <= m < k ==> t@[p + m] == w@[m],
        decreases w@.len() - k,
    {
        if t[p + k] != w[k] {
            assert(t@.subrange(p as int, p + w@.len())[k as int] != w@[k as int]);
            return false;
        }
        k = k + 1;
    }
    assert(t@.subrange(p as int, p + w@.len()) =~= w@);
    true
}

/// Counts the whole-word occurrences of `word` in `text` (bounded by
/// non-identifier bytes); an empty word counts none.
pub fn count_word(text: &str, word: &str) -> (r: usize)
    ensures
        r == count_word_spec(vstd::utf8::encode_utf8(text@), vstd::utf8::encode_utf8(word@)),
{
    let t = text.as_bytes();
    let w = word.as_bytes();
    if w.len() == 0 {
        return 0;
    }
    let n = t.len();
    let mut count: usize = 0;
    let mut p: usize = 0;
    while p < n
        invariant
            p <= n,
            n == t@.len(),
            w@.len() > 0,
            count == words_before(t@, w@, p as int),
            count <= p,
        decreases n - p,
    {
        let found = if w.len() <= n - p && matches_at(t, w, p) {
            let before_ok = p == 0 || !is_ident(t[p - 1]);
            let end = p + w.len();
            let after_ok = end >= n || !is_ident(t[end]);
            before_ok && after_ok
        } else {
            false
        };
        assert(found == word_at(t@, w@, p as int));
        if found {
            count = count + 1;
        }
        p = p + 1;
    }
    count
}

/// The cross-reference of a mechanic `key` in the event file `events/<name>`
/// with bytes `bytes`: the file, its origin and the key's whole-word count,
/// or `None` when the key does not occur.
pub fn event_reference(name: &str, origin: &str, bytes: &[u8], key: &str) -> (r: Option<MechanicEventRef>)
    ensures
        match r {
            Some(e) => count_word_spec(vstd::utf8::encode_utf8(lossy_utf8(bytes@)), vstd::utf8::encode_utf8(key@)) > 0
                && e.count == count_word_spec(vstd::utf8::encode_utf8(lossy_utf8(bytes@)), vstd::utf8::encode_utf8(key@))
                && e.file@ == "events/"@ + name@
                && e.origin@ == origin@,
            None => count_word_spec(vstd::utf8::encode_utf8(lossy_utf8(bytes@)), vstd::utf8::encode_utf8(key@)) == 0,
        },
{
    let text = lossy_string(bytes);
    let count = count_word(text.as_str(), key);
    if count > 0 {
        let mut file = String::from_str("events/");
        file.append(name);
        Some(MechanicEventRef { file, origin: origin.to_string(), count })
    } else {
        None
    }
}

/// Whether `a` sorts strictly before `b` (by code point, a proper prefix
/// first), as `str` ordering does.
pub open spec fn lex_lt(a: Seq<char>, b: Seq<char>) -> bool
    decreases a.len(),
{
    if b.len() == 0 {
        false
    } else if a.len() == 0 {
        true
    } else if a[0] != b[0] {
        (a[0] as u32) < (b[0] as u32)
    } else {
        lex_lt(a.drop_first(), b.drop_first())
    }
}

/// No text sorts strictly before itself.
pub proof fn lemma_lex_irreflexive(a: Seq<char>)
    ensures
        !lex_lt(a, a),
    decreases a.len(),
{
    if a.len() > 0 {
        lemma_lex_irreflexive(a.drop_first());
    }
}

/// Sorting strictly before is transitive.
pub proof fn lemma_lex_transitive(a: Seq<char>, b: Seq<char>, c: Seq<char>)
    requires
        lex_lt(a, b),
        lex_lt(b, c),
    ensures
        lex_lt(a, c),
    decreases a.len(),
{
    if a.len() > 0 && b.len() > 0 && c.len() > 0 && a[0] == b[0] && b[0] == c[0] {
        lemma_lex_transitive(a.drop_first(), b.drop_first(), c.drop_first());
    }
}

/// Of two different texts, one sorts strictly before the other.
pub proof fn lemma_lex_total(a: Seq<char>, b: Seq<char>)
    requires
        a != b,
    ensures
        lex_lt(a, b) || lex_lt(b, a),
    decreases a.len(),
{
    if a.len() == 0 || b.len() == 0 {
        if a.len() == 0 && b.len() == 0 {
            assert(a =~= b);
        }
    } else if a[0] != b[0] {
        vstd::utf8::char_u32_cast(a[0], a[0] as u32);
        vstd::utf8::char_u32_cast(b[0], b[0] as u32);
        assert((a[0] as u32) != (b[0] as u32));
    } else {
        if a.drop_first() =~= b.drop_first() {
            assert forall|k: int| 0 <= k < a.len() implies a[k] == b[k] by {
                if k > 0 {
                    assert(a[k] == a.drop_first()[k - 1]);
                    assert(b[k] == b.drop_first()[k - 1]);
                }
            }
            assert(a =~= b);
        }
        lemma_lex_total(a.drop_first(), b.drop_first());
    }
}

/// Whether `s` is ordered by `key`: no later entry's key sorts strictly
/// before an earlier one's.
pub open spec fn sorted_by_key<T>(s: Seq<T>, key: spec_fn(T) -> Seq<char>) -> bool {
    forall|i: int, j: int| 0 <= i < j < s.len() ==> !lex_lt(key(#[trigger] s[j]), key(#[trigger] s[i]))
}

/// Inserting `x` before the first entry whose key its key sorts strictly
/// before keeps a sequence ordered by `key`.
pub proof fn lemma_insert_sorted<T>(t: Seq<T>, key: spec_fn(T) -> Seq<char>, x: T, p: int)
    requires
        sorted_by_key(t, key),
        0 <= p <= t.len(),
        forall|k: int| 0 <= k < p ==> !lex_lt(key(x), key(#[trigger] t[k])),
        p < t.len() ==> lex_lt(key(x), key(t[p])),
    ensures
        sorted_by_key(t.insert(p, x), key),
{
    let r = t.insert(p, x);
    assert forall|i: int, j: int| 0 <= i < j < r.len() implies !lex_lt(key(#[trigger] r[j]), key(#[trigger] r[i])) by {
        if j == p {
            assert(r[i] == t[i]);
        } else if i == p {
            assert(r[j] == t[j - 1]);
            if lex_lt(key(t[j - 1]), key(x)) {
                lemma_lex_transitive(key(t[j - 1]), key(x), key(t[p]));
                if j - 1 == p {
                    lemma_lex_irreflexive(key(t[p]));
                } else {
                    assert(!lex_lt(key(t[j - 1]), key(t[p])));
                }
            }
        } else {
            let i2 = if i < p { i } else { i - 1 };
            let j2 = if j < p { j } else { j - 1 };
            assert(r[i] == t[i2]);
            assert(r[j] == t[j2]);
            assert(i2 < j2);
        }
    }
}

pub(crate) fn lex_less(a: &str, b: &str) -> (r: bool)
    ensures
        r == lex_lt(a@, b@),
{
    let ca = chars_of(a);
    let cb = chars_of(b);
    let mut i: usize = 0;
    assert(a@.skip(0) =~= a@);
    assert(b@.skip(0) =~= b@);
    while i < ca.len() && i < cb.len() && ca[i] == cb[i]
        invariant
            i <= ca@.len(),
            i <= cb@.len(),
            ca@ == a@,
            cb@ == b@,
            lex_lt(a@, b@) == lex_lt(a@.skip(i as int), b@.skip(i as int)),
        decreases ca@.len() - i,
    {
        assert(a@.skip(i as int).drop_first() =~= a@.skip(i + 1));
        assert(b@.skip(i as int).drop_first() =~= b@.skip(i + 1));
        i = i + 1;
    }
    assert(a@.skip(i as int).len() == ca@.len() - i);
    assert(b@.skip(i as int).len() == cb@.len() - i);
    if i == cb.len() {
        false
    } else if i == ca.len() {
        true
    } else {
        assert(a@.skip(i as int)[0] == ca@[i as int]);
        assert(b@.skip(i as int)[0] == cb@[i as int]);
        (ca[i] as u32) < (cb[i] as u32)
    }
}

pub open spec fn event_ref_view(e: MechanicEventRef) -> (Seq<char>, Seq<char>, usize) {
    (e.file@, e.origin@, e.count)
}

pub open spec fn event_refs_list_view(v: Seq<MechanicEventRef>) -> Seq<(Seq<char>, Seq<char>, usize)> {
    v.map_values(|e: MechanicEventRef| event_ref_view(e))
}

/// First index at or after `j` whose file `x` sorts strictly before (else
/// the length): where a stable sort places `x` after all of `t`.
pub open spec fn ref_slot_from(t: Seq<(Seq<char>, Seq<char>, usize)>, x: (Seq<char>, Seq<char>, usize), j: int) -> int
    decreases t.len() - j,
{
    if j < 0 || j >= t.len() {
        t.len() as int
    } else if lex_lt(x.0, t[j].0) {
        j
    } else {
        ref_slot_from(t, x, j + 1)
    }
}

/// The stable sort of the references by file (what `sort_by` on the file
/// gives).
pub open spec fn sort_refs_spec(s: Seq<(Seq<char>, Seq<char>, usize)>) -> Seq<(Seq<char>, Seq<char>, usize)>
    decreases s.len(),
{
    if s.len() == 0 {
        s
    } else {
        let t = sort_refs_spec(s.drop_last());
        t.insert(ref_slot_from(t, s.last(), 0), s.last())
    }
}

proof fn lemma_ref_slot(t: Seq<(Seq<char>, Seq<char>, usize)>, x: (Seq<char>, Seq<char>, usize), j: int)
    requires
        0 <= j <= t.len(),
    ensures
        j <= ref_slot_from(t, x, j) <= t.len(),
        forall|k: int| j <= k < ref_slot_from(t, x, j) ==> !lex_lt(x.0, #[trigger] t[k].0),
        ref_slot_from(t, x, j) < t.len() ==> lex_lt(x.0, t[ref_slot_from(t, x, j)].0),
    decreases t.len() - j,
{
    if j < t.len() && !lex_lt(x.0, t[j].0) {
        lemma_ref_slot(t, x, j + 1);
    }
}

pub open spec fn ref_file(e: (Seq<char>, Seq<char>, usize)) -> Seq<char> {
    e.0
}

/// The sorted event references come out ordered by file, and as many as
/// went in.
pub proof fn lemma_event_refs_sorted(s: Seq<(Seq<char>, Seq<char>, usize)>)
    ensures
        sorted_by_key(sort_refs_spec(s), |e: (Seq<char>, Seq<char>, usize)| ref_file(e)),
        sort_refs_spec(s).len() == s.len(),
    decreases s.len(),
{
    if s.len() > 0 {
        lemma_event_refs_sorted(s.drop_last());
        let t = sort_refs_spec(s.drop_last());
        lemma_ref_slot(t, s.last(), 0);
        lemma_insert_sorted(t, |e: (Seq<char>, Seq<char>, usize)| ref_file(e), s.last(), ref_slot_from(t, s.last(), 0));
    }
}

/// The references sorted by file, stably.
pub fn sort_event_refs(refs: Vec<MechanicEventRef>) -> (r: Vec<MechanicEventRef>)
    ensures
        event_refs_list_view(r@) == sort_refs_spec(event_refs_list_view(refs@)),
{
    let ghost all = event_refs_list_view(refs@);
    let mut rest = refs;
    let mut out: Vec<MechanicEventRef> = Vec::new();
    let ghost mut n: int = 0;
    assert(all.skip(0) =~= all);
    while rest.len() > 0
        invariant
            0 <= n <= all.len(),
            event_refs_list_view(rest@) == all.skip(n),
            event_refs_list_view(out@) == sort_refs_spec(all.take(n)),
        decreases rest@.len(),
    {
        let ghost pre = rest@;
        assert(event_refs_list_view(pre).len() == pre.len());
        let o = rest.remove(0);
        assert(rest@ =~= pre.skip(1));
        assert(event_refs_list_view(pre)[0] == event_ref_view(pre[0]));
        assert(all.skip(n)[0] == all[n]);
        assert(event_refs_list_view(rest@) =~= event_refs_list_view(pre).skip(1));
        assert(event_refs_list_view(pre).skip(1) =~= all.skip(n + 1));
        assert(all.take(n + 1).drop_last() =~= all.take(n));
        assert(all.take(n + 1).last() == all[n]);
        let ghost t = event_refs_list_view(out@);
        let mut j: usize = 0;
        assert(ref_slot_from(t, all[n], 0) == ref_slot_from(t, all[n], 0));
        while j < out.len() && !lex_less(o.file.as_str(), out[j].file.as_str())
            invariant
                j <= out@.len(),
                t == event_refs_list_view(out@),
                event_ref_view(o) == all[n],
                ref_slot_from(t, all[n], j as int) == ref_slot_from(t, all[n], 0),
            decreases out@.len() - j,
        {
            assert(t[j as int] == event_ref_view(out@[j as int]));
            j = j + 1;
        }
        if j < out.len() {
            assert(t[j as int] == event_ref_view(out@[j as int]));
        }
        assert(ref_slot_from(t, all[n], j as int) == j);
        out.insert(j, o);
        assert(event_refs_list_view(out@) =~= t.insert(j as int, all[n]));
        proof {
            n = n + 1;
        }
    }
    assert(all.take(n) =~= all);
    out
}

// ---------------------------------------------------------------------------
// Loading a family
// ---------------------------------------------------------------------------

/// One file of a family's directory as the caller read it: its file name,
/// origin (`base` | `mod`), bytes, and the colour read from each keyed
/// block's `color` block (by position; may be empty).
#[derive(Debug)]
pub struct SourceFile {
    pub name: String,
    pub origin: String,
    pub bytes: Vec<u8>,
    pub colors: Vec<Option<[u8; 3]>>,
}

pub open spec fn source_view(f: SourceFile) -> (Seq<char>, Seq<char>, Seq<u8>, Seq<Option<[u8; 3]>>) {
    (f.name@, f.origin@, f.bytes@, f.colors@)
}

pub open spec fn sources_view(v: Seq<SourceFile>) -> Seq<(Seq<char>, Seq<char>, Seq<u8>, Seq<Option<[u8; 3]>>)> {
    v.map_values(|f: SourceFile| source_view(f))
}

/// Whether a file name ends in `.txt`, ignoring case.
pub open spec fn is_txt_name(name: Seq<char>) -> bool {
    let l = unicode_lower(name);
    l.len() >= 4 && l.subrange(l.len() - 4, l.len() as int) == ".txt"@
}

pub(crate) fn is_txt(name: &str) -> (r: bool)
    ensures
        r == is_txt_name(name@),
{
    let lower = to_lowercase(name);
    let cs = chars_of(lower.as_str());
    let n = cs.len();
    if n < 4 {
        return false;
    }
    let r = cs[n - 4] == '.' && cs[n - 3] == 't' && cs[n - 2] == 'x' && cs[n - 1] == 't';
    proof {
        reveal_strlit(".txt");
        let tail = cs@.subrange(n - 4, n as int);
        if r {
            assert(tail =~= ".txt"@);
        } else {
            assert(tail != ".txt"@) by {
                if tail == ".txt"@ {
                    assert(tail[0] == cs@[n - 4]);
                    assert(tail[1] == cs@[n - 3]);
                    assert(tail[2] == cs@[n - 2]);
                    assert(tail[3] == cs@[n - 1]);
                }
            }
        }
    }
    r
}

/// The entities of family `f` in its files, in file order, each file
/// `(name, origin, bytes, colours)` read through its parsed block: `.txt`
/// files only; group-nested families read religion groups' schools.
pub open spec fn files_objects(
    files: Seq<(Seq<char>, Seq<char>, Seq<u8>, Seq<Option<[u8; 3]>>)>,
    bs: Seq<Block>,
    f: FamilyView,
    loc: Seq<(Seq<char>, Seq<char>)>,
) -> Seq<ObjectView>
    decreases files.len(),
{
    if files.len() == 0 {
        Seq::empty()
    } else {
        let rest = files_objects(files.drop_last(), bs.drop_last(), f, loc);
        let x = files.last();
        if !is_txt_name(x.0) {
            rest
        } else if f.group_nested {
            rest + school_objects(x.2, keyed_blocks(bs.last().items@), "common/religions/"@ + x.0, x.1, f, loc)
        } else {
            rest + file_objects_spec(x.2, bs.last().items@, f.dir + "/"@ + x.0, x.1, f, loc, x.3)
        }
    }
}

/// The entities of family `f` in its files, deduplicated to the richest
/// per key for forward-declaring families.
pub open spec fn load_objects(
    files: Seq<(Seq<char>, Seq<char>, Seq<u8>, Seq<Option<[u8; 3]>>)>,
    bs: Seq<Block>,
    f: FamilyView,
    loc: Seq<(Seq<char>, Seq<char>)>,
) -> Seq<ObjectView> {
    let objs = files_objects(files, bs, f, loc);
    if dedup_spec(f.id) {
        dedup_objects(objs)
    } else {
        objs
    }
}

/// Whether `bs[i]` is the parse of the `i`-th file, for every `.txt` file.
pub open spec fn parsed_files(files: Seq<(Seq<char>, Seq<char>, Seq<u8>, Seq<Option<[u8; 3]>>)>, bs: Seq<Block>) -> bool {
    &&& bs.len() == files.len()
    &&& forall|i: int| 0 <= i < files.len() && is_txt_name(#[trigger] files[i].0) ==> bs[i].vview() == parse_spec(lossy_utf8(files[i].2))
}

/// A family's meta and the entities of its files (the caller lists the
/// family's directory and reads each file).
pub fn load(family: &str, files: &Vec<SourceFile>, loc: &[(String, String)]) -> (r: Result<MechanicsData, String>)
    ensures
        match r {
            Err(e) => family_pos(family@) is None && e@ == unknown_family(family@),
            Ok(d) => family_pos(family@) matches Some(k) && meta_view(d.meta) == meta_spec(family_table()[k])
                && exists|bs: Seq<Block>| parsed_files(sources_view(files@), bs)
                    && objects_view(d.objects@) == load_objects(sources_view(files@), bs, family_table()[k], loc_view(loc@)),
        },
{
    let fams = families();
    let k = match family_index(&fams, family) {
        None => {
            return Err(unknown_family_error(family));
        },
        Some(k) => k,
    };
    proof {
        lemma_pos_range(family@, 0);
        assert(fams@.len() == families_view(fams@).len());
    }
    let fam = &fams[k];
    assert(families_view(fams@)[k as int] == family_view(fams@[k as int]));
    let ghost fv = family_view(*fam);
    let ghost sv = sources_view(files@);
    let ghost lv = loc_view(loc@);
    let ghost mut bs: Seq<Block> = Seq::empty();
    let mut out: Vec<MechanicObject> = Vec::new();
    let mut i: usize = 0;
    while i < files.len()
        invariant
            i <= files@.len(),
            sv == sources_view(files@),
            fv == family_view(*fam),
            lv == loc_view(loc@),
            parsed_files(sv.take(i as int), bs),
            objects_view(out@) == files_objects(sv.take(i as int), bs, fv, lv),
        decreases files@.len() - i,
    {
        let ghost before = out@;
        let ghost bs0 = bs;
        let src = &files[i];
        assert(sv[i as int] == source_view(files@[i as int]));
        assert(sv.take(i + 1).drop_last() =~= sv.take(i as int));
        assert(sv.take(i + 1).last() == sv[i as int]);
        if is_txt(src.name.as_str()) {
            let text = lossy_string(src.bytes.as_slice());
            let block = parse(text.as_str());
            let objs = if fam.group_nested {
                let mut rel = String::from_str("common/religions/");
                rel.append(src.name.as_str());
                schools_of_block(src.bytes.as_slice(), &block, rel.as_str(), src.origin.as_str(), fam, loc)
            } else {
                let mut rel = fam.dir.to_string();
                rel.append("/");
                rel.append(src.name.as_str());
                objects_of_block(src.bytes.as_slice(), &block, rel.as_str(), src.origin.as_str(), fam, loc, src.colors.as_slice())
            };
            let mut objs = objs;
            let ghost ov = objs@;
            out.append(&mut objs);
            proof {
                bs = bs0.push(block);
                assert(bs.drop_last() =~= bs0);
                assert(bs.last() == block);
                assert(out@ =~= before + ov);
                assert(objects_view(out@) =~= objects_view(before) + objects_view(ov));
            }
        } else {
            proof {
                bs = bs0.push(vstd::pervasive::arbitrary());
                assert(bs.drop_last() =~= bs0);
            }
        }
        proof {
            assert forall|j: int| 0 <= j < sv.take(i + 1).len() && is_txt_name(#[trigger] sv.take(i + 1)[j].0)
                implies bs[j].vview() == parse_spec(lossy_utf8(sv.take(i + 1)[j].2)) by {
                if j < i {
                    assert(sv.take(i + 1)[j] == sv.take(i as int)[j]);
                    assert(bs[j] == bs0[j]);
                }
            }
        }
        i = i + 1;
    }
    assert(sv.take(files@.len() as int) =~= sv);
    let objects = if str_eq(fam.id, "subject_types") {
        dedup_richest(out)
    } else {
        out
    };
    Ok(MechanicsData { meta: family_meta(fam), objects })
}

} // verus!
