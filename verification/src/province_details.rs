//! Province history: the modeled 1444 state of a province history file, the
//! unmodeled statements reconstructed as text for read-only display
//! (preserve-unknown), and the geography membership options of the map
//! files.
//!
//! Numeric history values (`base_tax = 3`, `center_of_trade = 2`, …) are
//! kept as the text written in the file when that text reads as a number
//! (`str::parse::<f64>` accepts it), and cleared otherwise; reading them as
//! numbers (they may be fractions) is the caller's part.

use vstd::prelude::*;
use crate::mechanics::{is_txt, is_txt_name};
use crate::mod_writer::{date_less, date_lt, default_start, parse_date, parse_date_spec};
use crate::project_diff::{lines_from, split_lines};
use crate::rebels::{chars_from, file_id, find_pattern, first_sub_from, leading_id, lemma_first_sub};
use crate::script_tree::{trim_chars, trim_spec, is_float_text, float_ok};
use crate::paradox::{key_view, lemma_items_vview_index, items_vview, parsed_ids, lemma_bare_view, lemma_block_view, lemma_keyed_view, parse, parse_spec, vbare_texts, vblock_of, vkeyed_blocks, Block, VValue, Value};
use crate::text::{
    chars_of, clone_strings, decimal, loc_get, loc_lookup, loc_resolve, loc_view, lossy_string, lossy_utf8, opt_view,
    parse_unsigned, parse_unsigned_bytes, resolve_spec, str_eq, string_from_chars, strings_of, usize_to_string,
};

verus! {

// ---------------------------------------------------------------------------
// The modeled state
// ---------------------------------------------------------------------------

/// The modeled province state at a point in time; every field optional or
/// empty when the file does not set it. Numeric fields hold their text,
/// when it reads as a number.
#[derive(Debug, Clone)]
pub struct ProvinceStateSnapshot {
    pub owner: Option<String>,
    pub controller: Option<String>,
    pub cores: Vec<String>,
    pub claims: Vec<String>,
    pub culture: Option<String>,
    pub religion: Option<String>,
    pub trade_goods: Option<String>,
    pub latent_trade_goods: Option<String>,
    pub base_tax: Option<String>,
    pub base_production: Option<String>,
    pub base_manpower: Option<String>,
    pub capital: Option<String>,
    pub is_city: Option<bool>,
    pub hre: Option<bool>,
    pub seat_in_parliament: Option<bool>,
    pub discovered_by: Vec<String>,
    pub buildings: Vec<String>,
    pub native_size: Option<String>,
    pub native_ferocity: Option<String>,
    pub native_hostileness: Option<String>,
    pub center_of_trade: Option<String>,
    pub extra_cost: Option<String>,
    pub tribal_owner: Option<String>,
    pub reformation_center: Option<String>,
    pub local_autonomy: Option<String>,
    pub unrest: Option<String>,
    pub trade_company: Option<String>,
}

/// The spec view of a snapshot.
pub struct SnapView {
    pub owner: Option<Seq<char>>,
    pub controller: Option<Seq<char>>,
    pub cores: Seq<Seq<char>>,
    pub claims: Seq<Seq<char>>,
    pub culture: Option<Seq<char>>,
    pub religion: Option<Seq<char>>,
    pub trade_goods: Option<Seq<char>>,
    pub latent_trade_goods: Option<Seq<char>>,
    pub base_tax: Option<Seq<char>>,
    pub base_production: Option<Seq<char>>,
    pub base_manpower: Option<Seq<char>>,
    pub capital: Option<Seq<char>>,
    pub is_city: Option<bool>,
    pub hre: Option<bool>,
    pub seat_in_parliament: Option<bool>,
    pub discovered_by: Seq<Seq<char>>,
    pub buildings: Seq<Seq<char>>,
    pub native_size: Option<Seq<char>>,
    pub native_ferocity: Option<Seq<char>>,
    pub native_hostileness: Option<Seq<char>>,
    pub center_of_trade: Option<Seq<char>>,
    pub extra_cost: Option<Seq<char>>,
    pub tribal_owner: Option<Seq<char>>,
    pub reformation_center: Option<Seq<char>>,
    pub local_autonomy: Option<Seq<char>>,
    pub unrest: Option<Seq<char>>,
    pub trade_company: Option<Seq<char>>,
}

pub open spec fn snap_view(s: ProvinceStateSnapshot) -> SnapView {
    SnapView {
        owner: opt_view(s.owner),
        controller: opt_view(s.controller),
        cores: strings_of(s.cores@),
        claims: strings_of(s.claims@),
        culture: opt_view(s.culture),
        religion: opt_view(s.religion),
        trade_goods: opt_view(s.trade_goods),
        latent_trade_goods: opt_view(s.latent_trade_goods),
        base_tax: opt_view(s.base_tax),
        base_production: opt_view(s.base_production),
        base_manpower: opt_view(s.base_manpower),
        capital: opt_view(s.capital),
        is_city: s.is_city,
        hre: s.hre,
        seat_in_parliament: s.seat_in_parliament,
        discovered_by: strings_of(s.discovered_by@),
        buildings: strings_of(s.buildings@),
        native_size: opt_view(s.native_size),
        native_ferocity: opt_view(s.native_ferocity),
        native_hostileness: opt_view(s.native_hostileness),
        center_of_trade: opt_view(s.center_of_trade),
        extra_cost: opt_view(s.extra_cost),
        tribal_owner: opt_view(s.tribal_owner),
        reformation_center: opt_view(s.reformation_center),
        local_autonomy: opt_view(s.local_autonomy),
        unrest: opt_view(s.unrest),
        trade_company: opt_view(s.trade_company),
    }
}

pub open spec fn empty_snap() -> SnapView {
    SnapView { owner: None, controller: None, cores: Seq::empty(), claims: Seq::empty(), culture: None, religion: None, trade_goods: None, latent_trade_goods: None, base_tax: None, base_production: None, base_manpower: None, capital: None, is_city: None, hre: None, seat_in_parliament: None, discovered_by: Seq::empty(), buildings: Seq::empty(), native_size: None, native_ferocity: None, native_hostileness: None, center_of_trade: None, extra_cost: None, tribal_owner: None, reformation_center: None, local_autonomy: None, unrest: None, trade_company: None }
}

/// `yes` and `no` as booleans.
pub open spec fn yes_no(x: Seq<char>) -> Option<bool> {
    if x == "yes"@ {
        Some(true)
    } else if x == "no"@ {
        Some(false)
    } else {
        None
    }
}

fn yes_no_exec(x: &str) -> (r: Option<bool>)
    ensures
        r == yes_no(x@),
{
    if str_eq(x, "yes") {
        Some(true)
    } else if str_eq(x, "no") {
        Some(false)
    } else {
        None
    }
}

/// `x` appended unless already listed.
pub open spec fn add_unique(s: Seq<Seq<char>>, x: Seq<char>) -> Seq<Seq<char>> {
    if s.contains(x) { s } else { s.push(x) }
}

/// `s` without every `x`.
pub open spec fn without(s: Seq<Seq<char>>, x: Seq<char>) -> Seq<Seq<char>>
    decreases s.len(),
{
    if s.len() == 0 {
        s
    } else if s.last() == x {
        without(s.drop_last(), x)
    } else {
        without(s.drop_last(), x).push(s.last())
    }
}

fn push_unique(list: &mut Vec<String>, x: &str)
    ensures
        strings_of(final(list)@) == add_unique(strings_of(old(list)@), x@),
{
    let ghost sv = strings_of(list@);
    let mut i: usize = 0;
    while i < list.len()
        invariant
            i <= list@.len(),
            sv == strings_of(list@),
            list@ == old(list)@,
            forall|m: int| 0 <= m < i ==> list@[m]@ != x@,
        decreases list@.len() - i,
    {
        if str_eq(list[i].as_str(), x) {
            assert(sv[i as int] == x@);
            return;
        }
        i = i + 1;
    }
    proof {
        if sv.contains(x@) {
            let m = choose|m: int| 0 <= m < sv.len() && sv[m] == x@;
            assert(list@[m]@ == x@);
        }
    }
    list.push(String::from_str(x));
    assert(strings_of(list@) =~= sv.push(x@));
}

fn remove_all(list: &mut Vec<String>, x: &str)
    ensures
        strings_of(final(list)@) == without(strings_of(old(list)@), x@),
{
    let ghost sv = strings_of(list@);
    let mut out: Vec<String> = Vec::new();
    let mut i: usize = 0;
    while i < list.len()
        invariant
            i <= list@.len(),
            sv == strings_of(list@),
            list@ == old(list)@,
            strings_of(out@) == without(sv.subrange(0, i as int), x@),
        decreases list@.len() - i,
    {
        assert(sv.subrange(0, i + 1).drop_last() =~= sv.subrange(0, i as int));
        assert(sv.subrange(0, i + 1).last() == list@[i as int]@);
        if !str_eq(list[i].as_str(), x) {
            let ghost before = out@;
            out.push(list[i].clone());
            assert(strings_of(out@) =~= strings_of(before).push(list@[i as int]@));
        }
        i = i + 1;
    }
    assert(sv.subrange(0, list@.len() as int) =~= sv);
    *list = out;
}

/// The text of a numeric field: the value when `str::parse::<f64>` accepts
/// it, else nothing.
pub open spec fn num_opt(x: Seq<char>) -> Option<Seq<char>> {
    if is_float_text(x) {
        Some(x)
    } else {
        None
    }
}

fn number_text(x: &str) -> (r: Option<String>)
    ensures
        opt_view(r) == num_opt(x@),
{
    let cs = chars_of(x);
    if float_ok(cs.as_slice()) {
        Some(String::from_str(x))
    } else {
        None
    }
}

/// One `key = value` statement applied to a snapshot: plain fields are
/// replaced, numeric ones keep their text when it reads as a number and are
/// cleared otherwise, `yes`/`no` flags read as
/// booleans, cores/claims/discovered_by are added uniquely or removed, and
/// any other `key = yes/no` adds or removes the key as a building; block
/// values change nothing, but `latent_trade_goods` takes a block's first
/// bare token.
pub open spec fn apply_spec(st: SnapView, key: Seq<char>, v: VValue) -> SnapView {
    if key == "latent_trade_goods"@ {
        SnapView { owner: st.owner, controller: st.controller, cores: st.cores, claims: st.claims, culture: st.culture, religion: st.religion, trade_goods: st.trade_goods, latent_trade_goods: match v {
            VValue::Scalar(s) => Some(s),
            VValue::Block(b) => if vbare_texts(b).len() > 0 { Some(vbare_texts(b)[0]) } else { None },
        }, base_tax: st.base_tax, base_production: st.base_production, base_manpower: st.base_manpower, capital: st.capital, is_city: st.is_city, hre: st.hre, seat_in_parliament: st.seat_in_parliament, discovered_by: st.discovered_by, buildings: st.buildings, native_size: st.native_size, native_ferocity: st.native_ferocity, native_hostileness: st.native_hostileness, center_of_trade: st.center_of_trade, extra_cost: st.extra_cost, tribal_owner: st.tribal_owner, reformation_center: st.reformation_center, local_autonomy: st.local_autonomy, unrest: st.unrest, trade_company: st.trade_company }
    } else {
        match v {
            VValue::Block(_) => st,
            VValue::Scalar(x) => {
        if key == "owner"@ {
            SnapView { owner: Some(x), controller: st.controller, cores: st.cores, claims: st.claims, culture: st.culture, religion: st.religion, trade_goods: st.trade_goods, latent_trade_goods: st.latent_trade_goods, base_tax: st.base_tax, base_production: st.base_production, base_manpower: st.base_manpower, capital: st.capital, is_city: st.is_city, hre: st.hre, seat_in_parliament: st.seat_in_parliament, discovered_by: st.discovered_by, buildings: st.buildings, native_size: st.native_size, native_ferocity: st.native_ferocity, native_hostileness: st.native_hostileness, center_of_trade: st.center_of_trade, extra_cost: st.extra_cost, tribal_owner: st.tribal_owner, reformation_center: st.reformation_center, local_autonomy: st.local_autonomy, unrest: st.unrest, trade_company: st.trade_company }
        } else if key == "controller"@ {
            SnapView { owner: st.owner, controller: Some(x), cores: st.cores, claims: st.claims, culture: st.culture, religion: st.religion, trade_goods: st.trade_goods, latent_trade_goods: st.latent_trade_goods, base_tax: st.base_tax, base_production: st.base_production, base_manpower: st.base_manpower, capital: st.capital, is_city: st.is_city, hre: st.hre, seat_in_parliament: st.seat_in_parliament, discovered_by: st.discovered_by, buildings: st.buildings, native_size: st.native_size, native_ferocity: st.native_ferocity, native_hostileness: st.native_hostileness, center_of_trade: st.center_of_trade, extra_cost: st.extra_cost, tribal_owner: st.tribal_owner, reformation_center: st.reformation_center, local_autonomy: st.local_autonomy, unrest: st.unrest, trade_company: st.trade_company }
        } else if key == "culture"@ {
            SnapView { owner: st.owner, controller: st.controller, cores: st.cores, claims: st.claims, culture: Some(x), religion: st.religion, trade_goods: st.trade_goods, latent_trade_goods: st.latent_trade_goods, base_tax: st.base_tax, base_production: st.base_production, base_manpower: st.base_manpower, capital: st.capital, is_city: st.is_city, hre: st.hre, seat_in_parliament: st.seat_in_parliament, discovered_by: st.discovered_by, buildings: st.buildings, native_size: st.native_size, native_ferocity: st.native_ferocity, native_hostileness: st.native_hostileness, center_of_trade: st.center_of_trade, extra_cost: st.extra_cost, tribal_owner: st.tribal_owner, reformation_center: st.reformation_center, local_autonomy: st.local_autonomy, unrest: st.unrest, trade_company: st.trade_company }
        } else if key == "religion"@ {
            SnapView { owner: st.owner, controller: st.controller, cores: st.cores, claims: st.claims, culture: st.culture, religion: Some(x), trade_goods: st.trade_goods, latent_trade_goods: st.latent_trade_goods, base_tax: st.base_tax, base_production: st.base_production, base_manpower: st.base_manpower, capital: st.capital, is_city: st.is_city, hre: st.hre, seat_in_parliament: st.seat_in_parliament, discovered_by: st.discovered_by, buildings: st.buildings, native_size: st.native_size, native_ferocity: st.native_ferocity, native_hostileness: st.native_hostileness, center_of_trade: st.center_of_trade, extra_cost: st.extra_cost, tribal_owner: st.tribal_owner, reformation_center: st.reformation_center, local_autonomy: st.local_autonomy, unrest: st.unrest, trade_company: st.trade_company }
        } else if key == "trade_goods"@ {
            SnapView { owner: st.owner, controller: st.controller, cores: st.cores, claims: st.claims, culture: st.culture, religion: st.religion, trade_goods: Some(x), latent_trade_goods: st.latent_trade_goods, base_tax: st.base_tax, base_production: st.base_production, base_manpower: st.base_manpower, capital: st.capital, is_city: st.is_city, hre: st.hre, seat_in_parliament: st.seat_in_parliament, discovered_by: st.discovered_by, buildings: st.buildings, native_size: st.native_size, native_ferocity: st.native_ferocity, native_hostileness: st.native_hostileness, center_of_trade: st.center_of_trade, extra_cost: st.extra_cost, tribal_owner: st.tribal_owner, reformation_center: st.reformation_center, local_autonomy: st.local_autonomy, unrest: st.unrest, trade_company: st.trade_company }
        } else if key == "tribal_owner"@ {
            SnapView { owner: st.owner, controller: st.controller, cores: st.cores, claims: st.claims, culture: st.culture, religion: st.religion, trade_goods: st.trade_goods, latent_trade_goods: st.latent_trade_goods, base_tax: st.base_tax, base_production: st.base_production, base_manpower: st.base_manpower, capital: st.capital, is_city: st.is_city, hre: st.hre, seat_in_parliament: st.seat_in_parliament, discovered_by: st.discovered_by, buildings: st.buildings, native_size: st.native_size, native_ferocity: st.native_ferocity, native_hostileness: st.native_hostileness, center_of_trade: st.center_of_trade, extra_cost: st.extra_cost, tribal_owner: Some(x), reformation_center: st.reformation_center, local_autonomy: st.local_autonomy, unrest: st.unrest, trade_company: st.trade_company }
        } else if key == "reformation_center"@ {
            SnapView { owner: st.owner, controller: st.controller, cores: st.cores, claims: st.claims, culture: st.culture, religion: st.religion, trade_goods: st.trade_goods, latent_trade_goods: st.latent_trade_goods, base_tax: st.base_tax, base_production: st.base_production, base_manpower: st.base_manpower, capital: st.capital, is_city: st.is_city, hre: st.hre, seat_in_parliament: st.seat_in_parliament, discovered_by: st.discovered_by, buildings: st.buildings, native_size: st.native_size, native_ferocity: st.native_ferocity, native_hostileness: st.native_hostileness, center_of_trade: st.center_of_trade, extra_cost: st.extra_cost, tribal_owner: st.tribal_owner, reformation_center: Some(x), local_autonomy: st.local_autonomy, unrest: st.unrest, trade_company: st.trade_company }
        } else if key == "capital"@ {
            SnapView { owner: st.owner, controller: st.controller, cores: st.cores, claims: st.claims, culture: st.culture, religion: st.religion, trade_goods: st.trade_goods, latent_trade_goods: st.latent_trade_goods, base_tax: st.base_tax, base_production: st.base_production, base_manpower: st.base_manpower, capital: Some(x), is_city: st.is_city, hre: st.hre, seat_in_parliament: st.seat_in_parliament, discovered_by: st.discovered_by, buildings: st.buildings, native_size: st.native_size, native_ferocity: st.native_ferocity, native_hostileness: st.native_hostileness, center_of_trade: st.center_of_trade, extra_cost: st.extra_cost, tribal_owner: st.tribal_owner, reformation_center: st.reformation_center, local_autonomy: st.local_autonomy, unrest: st.unrest, trade_company: st.trade_company }
        } else if key == "add_to_trade_company"@ {
            SnapView { owner: st.owner, controller: st.controller, cores: st.cores, claims: st.claims, culture: st.culture, religion: st.religion, trade_goods: st.trade_goods, latent_trade_goods: st.latent_trade_goods, base_tax: st.base_tax, base_production: st.base_production, base_manpower: st.base_manpower, capital: st.capital, is_city: st.is_city, hre: st.hre, seat_in_parliament: st.seat_in_parliament, discovered_by: st.discovered_by, buildings: st.buildings, native_size: st.native_size, native_ferocity: st.native_ferocity, native_hostileness: st.native_hostileness, center_of_trade: st.center_of_trade, extra_cost: st.extra_cost, tribal_owner: st.tribal_owner, reformation_center: st.reformation_center, local_autonomy: st.local_autonomy, unrest: st.unrest, trade_company: Some(x) }
        } else if key == "base_tax"@ {
            SnapView { owner: st.owner, controller: st.controller, cores: st.cores, claims: st.claims, culture: st.culture, religion: st.religion, trade_goods: st.trade_goods, latent_trade_goods: st.latent_trade_goods, base_tax: num_opt(x), base_production: st.base_production, base_manpower: st.base_manpower, capital: st.capital, is_city: st.is_city, hre: st.hre, seat_in_parliament: st.seat_in_parliament, discovered_by: st.discovered_by, buildings: st.buildings, native_size: st.native_size, native_ferocity: st.native_ferocity, native_hostileness: st.native_hostileness, center_of_trade: st.center_of_trade, extra_cost: st.extra_cost, tribal_owner: st.tribal_owner, reformation_center: st.reformation_center, local_autonomy: st.local_autonomy, unrest: st.unrest, trade_company: st.trade_company }
        } else if key == "base_production"@ {
            SnapView { owner: st.owner, controller: st.controller, cores: st.cores, claims: st.claims, culture: st.culture, religion: st.religion, trade_goods: st.trade_goods, latent_trade_goods: st.latent_trade_goods, base_tax: st.base_tax, base_production: num_opt(x), base_manpower: st.base_manpower, capital: st.capital, is_city: st.is_city, hre: st.hre, seat_in_parliament: st.seat_in_parliament, discovered_by: st.discovered_by, buildings: st.buildings, native_size: st.native_size, native_ferocity: st.native_ferocity, native_hostileness: st.native_hostileness, center_of_trade: st.center_of_trade, extra_cost: st.extra_cost, tribal_owner: st.tribal_owner, reformation_center: st.reformation_center, local_autonomy: st.local_autonomy, unrest: st.unrest, trade_company: st.trade_company }
        } else if key == "base_manpower"@ {
            SnapView { owner: st.owner, controller: st.controller, cores: st.cores, claims: st.claims, culture: st.culture, religion: st.religion, trade_goods: st.trade_goods, latent_trade_goods: st.latent_trade_goods, base_tax: st.base_tax, base_production: st.base_production, base_manpower: num_opt(x), capital: st.capital, is_city: st.is_city, hre: st.hre, seat_in_parliament: st.seat_in_parliament, discovered_by: st.discovered_by, buildings: st.buildings, native_size: st.native_size, native_ferocity: st.native_ferocity, native_hostileness: st.native_hostileness, center_of_trade: st.center_of_trade, extra_cost: st.extra_cost, tribal_owner: st.tribal_owner, reformation_center: st.reformation_center, local_autonomy: st.local_autonomy, unrest: st.unrest, trade_company: st.trade_company }
        } else if key == "native_size"@ {
            SnapView { owner: st.owner, controller: st.controller, cores: st.cores, claims: st.claims, culture: st.culture, religion: st.religion, trade_goods: st.trade_goods, latent_trade_goods: st.latent_trade_goods, base_tax: st.base_tax, base_production: st.base_production, base_manpower: st.base_manpower, capital: st.capital, is_city: st.is_city, hre: st.hre, seat_in_parliament: st.seat_in_parliament, discovered_by: st.discovered_by, buildings: st.buildings, native_size: num_opt(x), native_ferocity: st.native_ferocity, native_hostileness: st.native_hostileness, center_of_trade: st.center_of_trade, extra_cost: st.extra_cost, tribal_owner: st.tribal_owner, reformation_center: st.reformation_center, local_autonomy: st.local_autonomy, unrest: st.unrest, trade_company: st.trade_company }
        } else if key == "native_ferocity"@ {
            SnapView { owner: st.owner, controller: st.controller, cores: st.cores, claims: st.claims, culture: st.culture, religion: st.religion, trade_goods: st.trade_goods, latent_trade_goods: st.latent_trade_goods, base_tax: st.base_tax, base_production: st.base_production, base_manpower: st.base_manpower, capital: st.capital, is_city: st.is_city, hre: st.hre, seat_in_parliament: st.seat_in_parliament, discovered_by: st.discovered_by, buildings: st.buildings, native_size: st.native_size, native_ferocity: num_opt(x), native_hostileness: st.native_hostileness, center_of_trade: st.center_of_trade, extra_cost: st.extra_cost, tribal_owner: st.tribal_owner, reformation_center: st.reformation_center, local_autonomy: st.local_autonomy, unrest: st.unrest, trade_company: st.trade_company }
        } else if key == "native_hostileness"@ {
            SnapView { owner: st.owner, controller: st.controller, cores: st.cores, claims: st.claims, culture: st.culture, religion: st.religion, trade_goods: st.trade_goods, latent_trade_goods: st.latent_trade_goods, base_tax: st.base_tax, base_production: st.base_production, base_manpower: st.base_manpower, capital: st.capital, is_city: st.is_city, hre: st.hre, seat_in_parliament: st.seat_in_parliament, discovered_by: st.discovered_by, buildings: st.buildings, native_size: st.native_size, native_ferocity: st.native_ferocity, native_hostileness: num_opt(x), center_of_trade: st.center_of_trade, extra_cost: st.extra_cost, tribal_owner: st.tribal_owner, reformation_center: st.reformation_center, local_autonomy: st.local_autonomy, unrest: st.unrest, trade_company: st.trade_company }
        } else if key == "center_of_trade"@ {
            SnapView { owner: st.owner, controller: st.controller, cores: st.cores, claims: st.claims, culture: st.culture, religion: st.religion, trade_goods: st.trade_goods, latent_trade_goods: st.latent_trade_goods, base_tax: st.base_tax, base_production: st.base_production, base_manpower: st.base_manpower, capital: st.capital, is_city: st.is_city, hre: st.hre, seat_in_parliament: st.seat_in_parliament, discovered_by: st.discovered_by, buildings: st.buildings, native_size: st.native_size, native_ferocity: st.native_ferocity, native_hostileness: st.native_hostileness, center_of_trade: num_opt(x), extra_cost: st.extra_cost, tribal_owner: st.tribal_owner, reformation_center: st.reformation_center, local_autonomy: st.local_autonomy, unrest: st.unrest, trade_company: st.trade_company }
        } else if key == "extra_cost"@ {
            SnapView { owner: st.owner, controller: st.controller, cores: st.cores, claims: st.claims, culture: st.culture, religion: st.religion, trade_goods: st.trade_goods, latent_trade_goods: st.latent_trade_goods, base_tax: st.base_tax, base_production: st.base_production, base_manpower: st.base_manpower, capital: st.capital, is_city: st.is_city, hre: st.hre, seat_in_parliament: st.seat_in_parliament, discovered_by: st.discovered_by, buildings: st.buildings, native_size: st.native_size, native_ferocity: st.native_ferocity, native_hostileness: st.native_hostileness, center_of_trade: st.center_of_trade, extra_cost: num_opt(x), tribal_owner: st.tribal_owner, reformation_center: st.reformation_center, local_autonomy: st.local_autonomy, unrest: st.unrest, trade_company: st.trade_company }
        } else if key == "add_local_autonomy"@ {
            SnapView { owner: st.owner, controller: st.controller, cores: st.cores, claims: st.claims, culture: st.culture, religion: st.religion, trade_goods: st.trade_goods, latent_trade_goods: st.latent_trade_goods, base_tax: st.base_tax, base_production: st.base_production, base_manpower: st.base_manpower, capital: st.capital, is_city: st.is_city, hre: st.hre, seat_in_parliament: st.seat_in_parliament, discovered_by: st.discovered_by, buildings: st.buildings, native_size: st.native_size, native_ferocity: st.native_ferocity, native_hostileness: st.native_hostileness, center_of_trade: st.center_of_trade, extra_cost: st.extra_cost, tribal_owner: st.tribal_owner, reformation_center: st.reformation_center, local_autonomy: num_opt(x), unrest: st.unrest, trade_company: st.trade_company }
        } else if key == "unrest"@ {
            SnapView { owner: st.owner, controller: st.controller, cores: st.cores, claims: st.claims, culture: st.culture, religion: st.religion, trade_goods: st.trade_goods, latent_trade_goods: st.latent_trade_goods, base_tax: st.base_tax, base_production: st.base_production, base_manpower: st.base_manpower, capital: st.capital, is_city: st.is_city, hre: st.hre, seat_in_parliament: st.seat_in_parliament, discovered_by: st.discovered_by, buildings: st.buildings, native_size: st.native_size, native_ferocity: st.native_ferocity, native_hostileness: st.native_hostileness, center_of_trade: st.center_of_trade, extra_cost: st.extra_cost, tribal_owner: st.tribal_owner, reformation_center: st.reformation_center, local_autonomy: st.local_autonomy, unrest: num_opt(x), trade_company: st.trade_company }
        } else if key == "is_city"@ {
            SnapView { owner: st.owner, controller: st.controller, cores: st.cores, claims: st.claims, culture: st.culture, religion: st.religion, trade_goods: st.trade_goods, latent_trade_goods: st.latent_trade_goods, base_tax: st.base_tax, base_production: st.base_production, base_manpower: st.base_manpower, capital: st.capital, is_city: yes_no(x), hre: st.hre, seat_in_parliament: st.seat_in_parliament, discovered_by: st.discovered_by, buildings: st.buildings, native_size: st.native_size, native_ferocity: st.native_ferocity, native_hostileness: st.native_hostileness, center_of_trade: st.center_of_trade, extra_cost: st.extra_cost, tribal_owner: st.tribal_owner, reformation_center: st.reformation_center, local_autonomy: st.local_autonomy, unrest: st.unrest, trade_company: st.trade_company }
        } else if key == "hre"@ {
            SnapView { owner: st.owner, controller: st.controller, cores: st.cores, claims: st.claims, culture: st.culture, religion: st.religion, trade_goods: st.trade_goods, latent_trade_goods: st.latent_trade_goods, base_tax: st.base_tax, base_production: st.base_production, base_manpower: st.base_manpower, capital: st.capital, is_city: st.is_city, hre: yes_no(x), seat_in_parliament: st.seat_in_parliament, discovered_by: st.discovered_by, buildings: st.buildings, native_size: st.native_size, native_ferocity: st.native_ferocity, native_hostileness: st.native_hostileness, center_of_trade: st.center_of_trade, extra_cost: st.extra_cost, tribal_owner: st.tribal_owner, reformation_center: st.reformation_center, local_autonomy: st.local_autonomy, unrest: st.unrest, trade_company: st.trade_company }
        } else if key == "seat_in_parliament"@ {
            SnapView { owner: st.owner, controller: st.controller, cores: st.cores, claims: st.claims, culture: st.culture, religion: st.religion, trade_goods: st.trade_goods, latent_trade_goods: st.latent_trade_goods, base_tax: st.base_tax, base_production: st.base_production, base_manpower: st.base_manpower, capital: st.capital, is_city: st.is_city, hre: st.hre, seat_in_parliament: yes_no(x), discovered_by: st.discovered_by, buildings: st.buildings, native_size: st.native_size, native_ferocity: st.native_ferocity, native_hostileness: st.native_hostileness, center_of_trade: st.center_of_trade, extra_cost: st.extra_cost, tribal_owner: st.tribal_owner, reformation_center: st.reformation_center, local_autonomy: st.local_autonomy, unrest: st.unrest, trade_company: st.trade_company }
        } else if key == "add_core"@ {
            SnapView { owner: st.owner, controller: st.controller, cores: add_unique(st.cores, x), claims: st.claims, culture: st.culture, religion: st.religion, trade_goods: st.trade_goods, latent_trade_goods: st.latent_trade_goods, base_tax: st.base_tax, base_production: st.base_production, base_manpower: st.base_manpower, capital: st.capital, is_city: st.is_city, hre: st.hre, seat_in_parliament: st.seat_in_parliament, discovered_by: st.discovered_by, buildings: st.buildings, native_size: st.native_size, native_ferocity: st.native_ferocity, native_hostileness: st.native_hostileness, center_of_trade: st.center_of_trade, extra_cost: st.extra_cost, tribal_owner: st.tribal_owner, reformation_center: st.reformation_center, local_autonomy: st.local_autonomy, unrest: st.unrest, trade_company: st.trade_company }
        } else if key == "remove_core"@ {
            SnapView { owner: st.owner, controller: st.controller, cores: without(st.cores, x), claims: st.claims, culture: st.culture, religion: st.religion, trade_goods: st.trade_goods, latent_trade_goods: st.latent_trade_goods, base_tax: st.base_tax, base_production: st.base_production, base_manpower: st.base_manpower, capital: st.capital, is_city: st.is_city, hre: st.hre, seat_in_parliament: st.seat_in_parliament, discovered_by: st.discovered_by, buildings: st.buildings, native_size: st.native_size, native_ferocity: st.native_ferocity, native_hostileness: st.native_hostileness, center_of_trade: st.center_of_trade, extra_cost: st.extra_cost, tribal_owner: st.tribal_owner, reformation_center: st.reformation_center, local_autonomy: st.local_autonomy, unrest: st.unrest, trade_company: st.trade_company }
        } else if key == "add_claim"@ {
            SnapView { owner: st.owner, controller: st.controller, cores: st.cores, claims: add_unique(st.claims, x), culture: st.culture, religion: st.religion, trade_goods: st.trade_goods, latent_trade_goods: st.latent_trade_goods, base_tax: st.base_tax, base_production: st.base_production, base_manpower: st.base_manpower, capital: st.capital, is_city: st.is_city, hre: st.hre, seat_in_parliament: st.seat_in_parliament, discovered_by: st.discovered_by, buildings: st.buildings, native_size: st.native_size, native_ferocity: st.native_ferocity, native_hostileness: st.native_hostileness, center_of_trade: st.center_of_trade, extra_cost: st.extra_cost, tribal_owner: st.tribal_owner, reformation_center: st.reformation_center, local_autonomy: st.local_autonomy, unrest: st.unrest, trade_company: st.trade_company }
        } else if key == "remove_claim"@ {
            SnapView { owner: st.owner, controller: st.controller, cores: st.cores, claims: without(st.claims, x), culture: st.culture, religion: st.religion, trade_goods: st.trade_goods, latent_trade_goods: st.latent_trade_goods, base_tax: st.base_tax, base_production: st.base_production, base_manpower: st.base_manpower, capital: st.capital, is_city: st.is_city, hre: st.hre, seat_in_parliament: st.seat_in_parliament, discovered_by: st.discovered_by, buildings: st.buildings, native_size: st.native_size, native_ferocity: st.native_ferocity, native_hostileness: st.native_hostileness, center_of_trade: st.center_of_trade, extra_cost: st.extra_cost, tribal_owner: st.tribal_owner, reformation_center: st.reformation_center, local_autonomy: st.local_autonomy, unrest: st.unrest, trade_company: st.trade_company }
        } else if key == "discovered_by"@ {
            SnapView { owner: st.owner, controller: st.controller, cores: st.cores, claims: st.claims, culture: st.culture, religion: st.religion, trade_goods: st.trade_goods, latent_trade_goods: st.latent_trade_goods, base_tax: st.base_tax, base_production: st.base_production, base_manpower: st.base_manpower, capital: st.capital, is_city: st.is_city, hre: st.hre, seat_in_parliament: st.seat_in_parliament, discovered_by: add_unique(st.discovered_by, x), buildings: st.buildings, native_size: st.native_size, native_ferocity: st.native_ferocity, native_hostileness: st.native_hostileness, center_of_trade: st.center_of_trade, extra_cost: st.extra_cost, tribal_owner: st.tribal_owner, reformation_center: st.reformation_center, local_autonomy: st.local_autonomy, unrest: st.unrest, trade_company: st.trade_company }
        } else {
            match yes_no(x) {
                Some(true) => SnapView { owner: st.owner, controller: st.controller, cores: st.cores, claims: st.claims, culture: st.culture, religion: st.religion, trade_goods: st.trade_goods, latent_trade_goods: st.latent_trade_goods, base_tax: st.base_tax, base_production: st.base_production, base_manpower: st.base_manpower, capital: st.capital, is_city: st.is_city, hre: st.hre, seat_in_parliament: st.seat_in_parliament, discovered_by: st.discovered_by, buildings: add_unique(st.buildings, key), native_size: st.native_size, native_ferocity: st.native_ferocity, native_hostileness: st.native_hostileness, center_of_trade: st.center_of_trade, extra_cost: st.extra_cost, tribal_owner: st.tribal_owner, reformation_center: st.reformation_center, local_autonomy: st.local_autonomy, unrest: st.unrest, trade_company: st.trade_company },
                Some(false) => SnapView { owner: st.owner, controller: st.controller, cores: st.cores, claims: st.claims, culture: st.culture, religion: st.religion, trade_goods: st.trade_goods, latent_trade_goods: st.latent_trade_goods, base_tax: st.base_tax, base_production: st.base_production, base_manpower: st.base_manpower, capital: st.capital, is_city: st.is_city, hre: st.hre, seat_in_parliament: st.seat_in_parliament, discovered_by: st.discovered_by, buildings: without(st.buildings, key), native_size: st.native_size, native_ferocity: st.native_ferocity, native_hostileness: st.native_hostileness, center_of_trade: st.center_of_trade, extra_cost: st.extra_cost, tribal_owner: st.tribal_owner, reformation_center: st.reformation_center, local_autonomy: st.local_autonomy, unrest: st.unrest, trade_company: st.trade_company },
                None => st,
            }
        }
            },
        }
    }
}

impl ProvinceStateSnapshot {
    /// The empty snapshot.
    pub fn new() -> (r: ProvinceStateSnapshot)
        ensures
            snap_view(r) == empty_snap(),
    {
        let r = ProvinceStateSnapshot { owner: None, controller: None, cores: Vec::new(), claims: Vec::new(), culture: None, religion: None, trade_goods: None, latent_trade_goods: None, base_tax: None, base_production: None, base_manpower: None, capital: None, is_city: None, hre: None, seat_in_parliament: None, discovered_by: Vec::new(), buildings: Vec::new(), native_size: None, native_ferocity: None, native_hostileness: None, center_of_trade: None, extra_cost: None, tribal_owner: None, reformation_center: None, local_autonomy: None, unrest: None, trade_company: None };
        proof {
            assert(strings_of(r.cores@) =~= Seq::<Seq<char>>::empty());
            assert(strings_of(r.claims@) =~= Seq::<Seq<char>>::empty());
            assert(strings_of(r.discovered_by@) =~= Seq::<Seq<char>>::empty());
            assert(strings_of(r.buildings@) =~= Seq::<Seq<char>>::empty());
        }
        r
    }

    /// Applies one `key = value` statement (see [`apply_spec`]).
    pub fn apply(&mut self, key: &str, value: &Value)
        ensures
            snap_view(*final(self)) == apply_spec(snap_view(*old(self)), key@, value.vview()),
    {
        proof {
            reveal_strlit("latent_trade_goods");
        }
        if str_eq(key, "latent_trade_goods") {
            self.latent_trade_goods = match value {
                Value::Scalar(s) => Some(s.clone()),
                Value::Block(b) => {
                    let bare = b.bare_scalars();
                    proof {
                        lemma_bare_view(b.items@);
                    }
                    if bare.len() > 0 {
                        Some(String::from_str(bare[0]))
                    } else {
                        None
                    }
                },
            };
            return;
        }
        let x: &str = match value {
            Value::Scalar(s) => s.as_str(),
            Value::Block(_) => {
                return;
            },
        };
        if str_eq(key, "owner") {
            self.owner = Some(String::from_str(x));
        } else if str_eq(key, "controller") {
            self.controller = Some(String::from_str(x));
        } else if str_eq(key, "culture") {
            self.culture = Some(String::from_str(x));
        } else if str_eq(key, "religion") {
            self.religion = Some(String::from_str(x));
        } else if str_eq(key, "trade_goods") {
            self.trade_goods = Some(String::from_str(x));
        } else if str_eq(key, "tribal_owner") {
            self.tribal_owner = Some(String::from_str(x));
        } else if str_eq(key, "reformation_center") {
            self.reformation_center = Some(String::from_str(x));
        } else if str_eq(key, "capital") {
            self.capital = Some(String::from_str(x));
        } else if str_eq(key, "add_to_trade_company") {
            self.trade_company = Some(String::from_str(x));
        } else if str_eq(key, "base_tax") {
            self.base_tax = number_text(x);
        } else if str_eq(key, "base_production") {
            self.base_production = number_text(x);
        } else if str_eq(key, "base_manpower") {
            self.base_manpower = number_text(x);
        } else if str_eq(key, "native_size") {
            self.native_size = number_text(x);
        } else if str_eq(key, "native_ferocity") {
            self.native_ferocity = number_text(x);
        } else if str_eq(key, "native_hostileness") {
            self.native_hostileness = number_text(x);
        } else if str_eq(key, "center_of_trade") {
            self.center_of_trade = number_text(x);
        } else if str_eq(key, "extra_cost") {
            self.extra_cost = number_text(x);
        } else if str_eq(key, "add_local_autonomy") {
            self.local_autonomy = number_text(x);
        } else if str_eq(key, "unrest") {
            self.unrest = number_text(x);
        } else if str_eq(key, "is_city") {
            self.is_city = yes_no_exec(x);
        } else if str_eq(key, "hre") {
            self.hre = yes_no_exec(x);
        } else if str_eq(key, "seat_in_parliament") {
            self.seat_in_parliament = yes_no_exec(x);
        } else if str_eq(key, "add_core") {
            push_unique(&mut self.cores, x);
        } else if str_eq(key, "remove_core") {
            remove_all(&mut self.cores, x);
        } else if str_eq(key, "add_claim") {
            push_unique(&mut self.claims, x);
        } else if str_eq(key, "remove_claim") {
            remove_all(&mut self.claims, x);
        } else if str_eq(key, "discovered_by") {
            push_unique(&mut self.discovered_by, x);
        } else {
            match yes_no_exec(x) {
                Some(true) => push_unique(&mut self.buildings, key),
                Some(false) => remove_all(&mut self.buildings, key),
                None => {},
            }
        }
    }

}

// ---------------------------------------------------------------------------
// Statements as text
// ---------------------------------------------------------------------------

/// A value as inline text: a scalar as written, a block as
/// `{ a = b c = { ... } bare }` (`{ }` when empty).
pub open spec fn value_text(v: VValue) -> Seq<char>
    decreases v,
{
    match v {
        VValue::Scalar(s) => s,
        VValue::Block(items) => if items.len() == 0 {
            "{ }"@
        } else {
            "{ "@ + parts_text(items) + " }"@
        },
    }
}

/// The items of a block as text, separated by single spaces: `key = value`,
/// or the value alone for a bare item.
pub open spec fn parts_text(items: Seq<(Option<Seq<char>>, VValue)>) -> Seq<char>
    decreases items,
{
    if items.len() == 0 {
        Seq::empty()
    } else {
        let part = match items.last().0 {
            Some(k) => k + " = "@ + value_text(items.last().1),
            None => value_text(items.last().1),
        };
        if items.len() == 1 {
            part
        } else {
            parts_text(items.drop_last()) + " "@ + part
        }
    }
}

/// A block as inline text (see [`value_text`]).
pub open spec fn block_text(items: Seq<(Option<Seq<char>>, VValue)>) -> Seq<char> {
    value_text(VValue::Block(items))
}

/// A value as inline text.
pub fn value_to_text(v: &Value) -> (r: String)
    ensures
        r@ == value_text(v.vview()),
    decreases v,
{
    match v {
        Value::Scalar(s) => s.clone(),
        Value::Block(b) => block_to_text(b),
    }
}

/// A block as inline text.
pub fn block_to_text(b: &Block) -> (r: String)
    ensures
        r@ == block_text(b.vview()),
    decreases b,
{
    let ghost iv = b.vview();
    let mut out = String::new();
    let mut i: usize = 0;
    while i < b.items.len()
        invariant
            i <= b.items@.len(),
            iv == b.vview(),
            iv == items_vview(b.items@),
            out@ == parts_text(items_vview(b.items@.subrange(0, i as int))),
        decreases b.items@.len() - i,
    {
        let ghost sub = b.items@.subrange(0, i + 1);
        assert(sub.drop_last() =~= b.items@.subrange(0, i as int));
        assert(items_vview(sub).drop_last() =~= items_vview(b.items@.subrange(0, i as int)));
        assert(items_vview(sub).last() == (crate::paradox::key_view(b.items@[i as int].0), b.items@[i as int].1.vview()));
        assert(decreases_to!(b => b.items));
        assert(decreases_to!(b.items => b.items@));
        assert(decreases_to!(b.items@ => b.items@[i as int]));
        let vt = value_to_text(&b.items[i].1);
        if i > 0 {
            out.append(" ");
        }
        match &b.items[i].0 {
            Some(k) => {
                out.append(k.as_str());
                out.append(" = ");
                out.append(vt.as_str());
            },
            None => {
                out.append(vt.as_str());
            },
        }
        i = i + 1;
    }
    assert(b.items@.subrange(0, b.items@.len() as int) =~= b.items@);
    if b.items.len() == 0 {
        String::from_str("{ }")
    } else {
        let mut r = String::from_str("{ ");
        r.append(out.as_str());
        r.append(" }");
        r
    }
}

/// One statement reconstructed for read-only display.
#[derive(Debug, Clone)]
pub struct RawStatement {
    /// The key; empty for a bare list element.
    pub key: String,
    pub value: String,
    pub is_block: bool,
}

pub open spec fn statement_view(r: RawStatement) -> (Seq<char>, Seq<char>, bool) {
    (r.key@, r.value@, r.is_block)
}

/// A statement as displayed: its key (empty when bare), its value as text,
/// whether it was a block.
pub open spec fn statement_spec(key: Option<Seq<char>>, v: VValue) -> (Seq<char>, Seq<char>, bool) {
    (match key {
        Some(k) => k,
        None => Seq::empty(),
    }, value_text(v), v is Block)
}

pub fn raw_statement(key: &Option<String>, value: &Value) -> (r: RawStatement)
    ensures
        statement_view(r) == statement_spec(crate::paradox::key_view(*key), value.vview()),
{
    RawStatement {
        key: match key {
            Some(k) => k.clone(),
            None => String::new(),
        },
        value: value_to_text(value),
        is_block: match value {
            Value::Block(_) => true,
            Value::Scalar(_) => false,
        },
    }
}

// ---------------------------------------------------------------------------
// The top level of a history file
// ---------------------------------------------------------------------------

/// The keys the snapshot models.
pub open spec fn modeled_keys() -> Seq<Seq<char>> {
    seq!["owner"@, "controller"@, "culture"@, "religion"@, "trade_goods"@, "tribal_owner"@, "reformation_center"@, "capital"@, "add_to_trade_company"@, "latent_trade_goods"@, "base_tax"@, "base_production"@, "base_manpower"@, "native_size"@, "native_ferocity"@, "native_hostileness"@, "center_of_trade"@, "extra_cost"@, "add_local_autonomy"@, "unrest"@, "is_city"@, "hre"@, "seat_in_parliament"@, "add_core"@, "remove_core"@, "add_claim"@, "remove_claim"@, "discovered_by"@]
}

/// Whether a top-level statement is consumed by the snapshot: a modeled key,
/// or any `key = yes/no` (a building or flag).
pub open spec fn is_modeled_spec(key: Seq<char>, v: VValue) -> bool {
    modeled_keys().contains(key) || (v matches VValue::Scalar(s) && (s == "yes"@ || s == "no"@))
}

pub fn is_modeled_top_level(key: &str, value: &Value) -> (r: bool)
    ensures
        r == is_modeled_spec(key@, value.vview()),
{
    let modeled: Vec<&'static str> = vec!["owner", "controller", "culture", "religion", "trade_goods", "tribal_owner", "reformation_center", "capital", "add_to_trade_company", "latent_trade_goods", "base_tax", "base_production", "base_manpower", "native_size", "native_ferocity", "native_hostileness", "center_of_trade", "extra_cost", "add_local_autonomy", "unrest", "is_city", "hre", "seat_in_parliament", "add_core", "remove_core", "add_claim", "remove_claim", "discovered_by"];
    assert(crate::fields::texts(modeled@) =~= modeled_keys());
    if crate::fields::contains_static(&modeled, key) {
        return true;
    }
    match value {
        Value::Scalar(s) => str_eq(s.as_str(), "yes") || str_eq(s.as_str(), "no"),
        Value::Block(_) => false,
    }
}

/// The top-level state and the unmodeled statements of a history file's
/// items, in file order.
pub open spec fn top_level_spec(items: Seq<(Option<Seq<char>>, VValue)>) -> (SnapView, Seq<(Seq<char>, Seq<char>, bool)>)
    decreases items.len(),
{
    if items.len() == 0 {
        (empty_snap(), Seq::empty())
    } else {
        let (st, raw) = top_level_spec(items.drop_last());
        let it = items.last();
        match it.0 {
            Some(k) => if is_modeled_spec(k, it.1) {
                (apply_spec(st, k, it.1), raw)
            } else {
                (st, raw.push(statement_spec(it.0, it.1)))
            },
            None => (st, raw.push(statement_spec(it.0, it.1))),
        }
    }
}

/// The top-level state of a parsed history file and its unmodeled
/// statements.
pub fn top_level_of(block: &Block) -> (r: (ProvinceStateSnapshot, Vec<RawStatement>))
    ensures
        snap_view(r.0) == top_level_spec(block.vview()).0,
        r.1@.map_values(|s: RawStatement| statement_view(s)) == top_level_spec(block.vview()).1,
{
    let mut st = ProvinceStateSnapshot::new();
    let mut raw: Vec<RawStatement> = Vec::new();
    let mut i: usize = 0;
    while i < block.items.len()
        invariant
            i <= block.items@.len(),
            snap_view(st) == top_level_spec(items_vview(block.items@.subrange(0, i as int))).0,
            raw@.map_values(|s: RawStatement| statement_view(s)) == top_level_spec(items_vview(block.items@.subrange(0, i as int))).1,
        decreases block.items@.len() - i,
    {
        let ghost sub = block.items@.subrange(0, i + 1);
        assert(sub.drop_last() =~= block.items@.subrange(0, i as int));
        assert(items_vview(sub).drop_last() =~= items_vview(block.items@.subrange(0, i as int)));
        assert(items_vview(sub).last() == (crate::paradox::key_view(block.items@[i as int].0), block.items@[i as int].1.vview()));
        let ghost before = raw@;
        let (key, value) = (&block.items[i].0, &block.items[i].1);
        match key {
            Some(k) => {
                if is_modeled_top_level(k.as_str(), value) {
                    st.apply(k.as_str(), value);
                } else {
                    let s = raw_statement(key, value);
                    raw.push(s);
                    assert(raw@.map_values(|s: RawStatement| statement_view(s)) =~= before.map_values(|s: RawStatement| statement_view(s)).push(statement_view(s)));
                }
            },
            None => {
                let s = raw_statement(key, value);
                raw.push(s);
                assert(raw@.map_values(|s: RawStatement| statement_view(s)) =~= before.map_values(|s: RawStatement| statement_view(s)).push(statement_view(s)));
            },
        }
        i = i + 1;
    }
    assert(block.items@.subrange(0, block.items@.len() as int) =~= block.items@);
    (st, raw)
}


// ---------------------------------------------------------------------------
// Geography membership options
// ---------------------------------------------------------------------------

/// The file continent membership lives in.
pub const CONTINENT_FILE: &'static str = "map/continent.txt";

/// One selectable membership target: its key, display name, the file its id
/// list lives in and the path to that list.
#[derive(Debug, Clone)]
pub struct GeoOption {
    pub key: String,
    pub name: String,
    pub file: String,
    pub list_path: Vec<String>,
}

/// All geography membership targets, by slot.
#[derive(Debug, Clone)]
pub struct GeoOptions {
    pub areas: Vec<GeoOption>,
    pub continents: Vec<GeoOption>,
    pub trade_nodes: Vec<GeoOption>,
    pub terrains: Vec<GeoOption>,
    pub climate_zones: Vec<GeoOption>,
    pub winters: Vec<GeoOption>,
    /// The file the `impassable` toggle list lives in.
    pub impassable_file: String,
    pub continent_file: String,
}

pub open spec fn option_view(o: GeoOption) -> (Seq<char>, Seq<char>, Seq<char>, Seq<Seq<char>>) {
    (o.key@, o.name@, o.file@, strings_of(o.list_path@))
}

pub open spec fn options_view(v: Seq<GeoOption>) -> Seq<(Seq<char>, Seq<char>, Seq<char>, Seq<Seq<char>>)> {
    v.map_values(|o: GeoOption| option_view(o))
}

/// The options of `keys` in `file`, each list at `[key] + suffix`.
pub open spec fn options_spec(loc: Seq<(Seq<char>, Seq<char>)>, keys: Seq<Seq<char>>, file: Seq<char>, suffix: Seq<Seq<char>>) -> Seq<(Seq<char>, Seq<char>, Seq<char>, Seq<Seq<char>>)> {
    keys.map_values(|k: Seq<char>| (k, resolve_spec(loc, k), file, seq![k] + suffix))
}

/// The keys of the top-level blocks of a file's items.
pub open spec fn block_keys(items: Seq<(Option<Seq<char>>, VValue)>) -> Seq<Seq<char>> {
    vkeyed_blocks(items).map_values(|p: (Seq<char>, Seq<(Option<Seq<char>>, VValue)>)| p.0)
}

/// The keys of a file read through its text (none when it could not be read).
pub open spec fn file_keys(bytes: Option<Seq<u8>>) -> Seq<Seq<char>> {
    match bytes {
        Some(b) => block_keys(parse_spec(lossy_utf8(b))),
        None => Seq::empty(),
    }
}

/// `keys` without `x`.
pub open spec fn drop_key(keys: Seq<Seq<char>>, x: Seq<char>) -> Seq<Seq<char>> {
    without(keys, x)
}

/// The terrain types of `map/terrain.txt` (`categories = { <type> = … }`).
pub open spec fn terrain_keys(bytes: Option<Seq<u8>>) -> Seq<Seq<char>> {
    match bytes {
        Some(b) => match vblock_of(parse_spec(lossy_utf8(b)), "categories"@) {
            Some(c) => block_keys(c),
            None => Seq::empty(),
        },
        None => Seq::empty(),
    }
}

/// The trade node options of the `common/tradenodes` files (`.txt` only),
/// each recording its own file.
pub open spec fn node_options(loc: Seq<(Seq<char>, Seq<char>)>, files: Seq<(Seq<char>, Seq<u8>)>) -> Seq<(Seq<char>, Seq<char>, Seq<char>, Seq<Seq<char>>)>
    decreases files.len(),
{
    if files.len() == 0 {
        Seq::empty()
    } else {
        let rest = node_options(loc, files.drop_last());
        let f = files.last();
        if !is_txt_name(f.0) {
            rest
        } else {
            rest + options_spec(loc, block_keys(parse_spec(lossy_utf8(f.1))), "common/tradenodes/"@ + f.0, seq!["members"@])
        }
    }
}

pub open spec fn bytes_opt(b: Option<&[u8]>) -> Option<Seq<u8>> {
    match b {
        Some(x) => Some(x@),
        None => None,
    }
}

fn str_vec(v: &Vec<&'static str>) -> (r: Vec<String>)
    ensures
        strings_of(r@) == crate::fields::texts(v@),
{
    let mut out: Vec<String> = Vec::new();
    let mut i: usize = 0;
    while i < v.len()
        invariant
            i <= v@.len(),
            strings_of(out@) == crate::fields::texts(v@).subrange(0, i as int),
        decreases v@.len() - i,
    {
        let ghost before = out@;
        out.push(String::from_str(v[i]));
        assert(strings_of(out@) =~= strings_of(before).push(v@[i as int]@));
        assert(strings_of(out@) =~= crate::fields::texts(v@).subrange(0, i + 1));
        i = i + 1;
    }
    assert(crate::fields::texts(v@).subrange(0, v@.len() as int) =~= crate::fields::texts(v@));
    out
}

fn keys_of_block(b: &Block) -> (r: Vec<String>)
    ensures
        strings_of(r@) == block_keys(b.vview()),
{
    proof {
        lemma_keyed_view(b.items@);
    }
    let kids = b.key_blocks();
    let ghost kb = vkeyed_blocks(b.vview());
    let mut out: Vec<String> = Vec::new();
    let mut i: usize = 0;
    while i < kids.len()
        invariant
            i <= kids@.len(),
            kids@.len() == kb.len(),
            kb == vkeyed_blocks(b.vview()),
            forall|k: int| 0 <= k < kids@.len() ==> (#[trigger] kids@[k]).0@ == kb[k].0,
            strings_of(out@) == block_keys(b.vview()).subrange(0, i as int),
        decreases kids@.len() - i,
    {
        let ghost before = out@;
        out.push(String::from_str(kids[i].0));
        assert(strings_of(out@) =~= strings_of(before).push(kb[i as int].0));
        assert(strings_of(out@) =~= block_keys(b.vview()).subrange(0, i + 1));
        i = i + 1;
    }
    assert(block_keys(b.vview()).subrange(0, kids@.len() as int) =~= block_keys(b.vview()));
    out
}

fn keys_of_file(bytes: Option<&[u8]>) -> (r: Vec<String>)
    ensures
        strings_of(r@) == file_keys(bytes_opt(bytes)),
{
    match bytes {
        Some(b) => {
            let text = lossy_string(b);
            let block = parse(text.as_str());
            keys_of_block(&block)
        },
        None => {
            let v: Vec<String> = Vec::new();
            assert(strings_of(v@) =~= Seq::<Seq<char>>::empty());
            v
        },
    }
}

fn append_options(out: &mut Vec<GeoOption>, loc: &[(String, String)], keys: &Vec<String>, file: &str, suffix: &Vec<String>)
    ensures
        options_view(final(out)@) == options_view(old(out)@) + options_spec(loc_view(loc@), strings_of(keys@), file@, strings_of(suffix@)),
{
    let ghost start = options_view(out@);
    let ghost want = options_spec(loc_view(loc@), strings_of(keys@), file@, strings_of(suffix@));
    let mut i: usize = 0;
    while i < keys.len()
        invariant
            i <= keys@.len(),
            want == options_spec(loc_view(loc@), strings_of(keys@), file@, strings_of(suffix@)),
            options_view(out@) == start + want.subrange(0, i as int),
        decreases keys@.len() - i,
    {
        let k = &keys[i];
        let mut path: Vec<String> = Vec::new();
        path.push(k.clone());
        let mut j: usize = 0;
        while j < suffix.len()
            invariant
                j <= suffix@.len(),
                strings_of(path@) == seq![k@] + strings_of(suffix@).subrange(0, j as int),
            decreases suffix@.len() - j,
        {
            let ghost pb = path@;
            path.push(suffix[j].clone());
            assert(strings_of(path@) =~= strings_of(pb).push(suffix@[j as int]@));
            assert(strings_of(path@) =~= seq![k@] + strings_of(suffix@).subrange(0, j + 1));
            j = j + 1;
        }
        assert(strings_of(suffix@).subrange(0, suffix@.len() as int) =~= strings_of(suffix@));
        let o = GeoOption { key: k.clone(), name: loc_resolve(loc, k.as_str()), file: String::from_str(file), list_path: path };
        let ghost before = out@;
        out.push(o);
        assert(options_view(out@) =~= options_view(before).push(option_view(o)));
        assert(options_view(out@) =~= start + want.subrange(0, i + 1));
        i = i + 1;
    }
    assert(want.subrange(0, keys@.len() as int) =~= want);
}

fn drop_key_exec(keys: &Vec<String>, x: &str) -> (r: Vec<String>)
    ensures
        strings_of(r@) == without(strings_of(keys@), x@),
{
    let mut v = clone_strings(keys);
    remove_all(&mut v, x);
    v
}

/// The membership options of the map files, given the bytes of
/// `map/area.txt`, `map/continent.txt` and `map/terrain.txt` (none when
/// unreadable) and the `common/tradenodes` files `(name, bytes)` as listed.
pub fn geo_options(
    area: Option<&[u8]>,
    continent: Option<&[u8]>,
    terrain: Option<&[u8]>,
    tradenodes: &Vec<(String, Vec<u8>)>,
    loc: &[(String, String)],
) -> (r: GeoOptions)
    ensures
        options_view(r.areas@) == options_spec(loc_view(loc@), file_keys(bytes_opt(area)), "map/area.txt"@, Seq::empty()),
        options_view(r.continents@) == options_spec(loc_view(loc@), without(file_keys(bytes_opt(continent)), "island_check_provinces"@), CONTINENT_FILE@, Seq::empty()),
        options_view(r.terrains@) == options_spec(loc_view(loc@), terrain_keys(bytes_opt(terrain)), "map/terrain.txt"@, seq!["terrain_override"@]).map_values(
            |o: (Seq<char>, Seq<char>, Seq<char>, Seq<Seq<char>>)| (o.0, o.1, o.2, seq!["categories"@] + o.3)),
        options_view(r.trade_nodes@) == node_options(loc_view(loc@), tradenodes@.map_values(|f: (String, Vec<u8>)| (f.0@, f.1@))),
        options_view(r.climate_zones@) == options_spec(loc_view(loc@), seq!["tropical"@, "arid"@, "arctic"@], "map/climate.txt"@, Seq::empty()),
        options_view(r.winters@) == options_spec(loc_view(loc@), seq!["mild_winter"@, "normal_winter"@, "severe_winter"@], "map/climate.txt"@, Seq::empty()),
        r.impassable_file@ == "map/climate.txt"@,
        r.continent_file@ == CONTINENT_FILE@,
{
    let none: Vec<String> = Vec::new();
    assert(strings_of(none@) =~= Seq::<Seq<char>>::empty());
    let mut areas: Vec<GeoOption> = Vec::new();
    append_options(&mut areas, loc, &keys_of_file(area), "map/area.txt", &none);
    assert(options_view(areas@) =~= options_spec(loc_view(loc@), file_keys(bytes_opt(area)), "map/area.txt"@, Seq::empty()));
    let mut continents: Vec<GeoOption> = Vec::new();
    let ck = drop_key_exec(&keys_of_file(continent), "island_check_provinces");
    append_options(&mut continents, loc, &ck, CONTINENT_FILE, &none);
    assert(options_view(continents@) =~= options_spec(loc_view(loc@), without(file_keys(bytes_opt(continent)), "island_check_provinces"@), CONTINENT_FILE@, Seq::empty()));
    // Terrain types: categories.<type>.terrain_override.
    let mut terrains: Vec<GeoOption> = Vec::new();
    match terrain {
        Some(b) => {
            let text = lossy_string(b);
            let block = parse(text.as_str());
            proof {
                lemma_block_view(block.items@, "categories"@);
            }
            match block.get_block("categories") {
                Some(c) => {
                    let keys = keys_of_block(c);
                    let ghost kv = strings_of(keys@);
                    let mut i: usize = 0;
                    while i < keys.len()
                        invariant
                            i <= keys@.len(),
                            kv == strings_of(keys@),
                            options_view(terrains@) == options_spec(loc_view(loc@), kv, "map/terrain.txt"@, seq!["terrain_override"@]).map_values(
                                |o: (Seq<char>, Seq<char>, Seq<char>, Seq<Seq<char>>)| (o.0, o.1, o.2, seq!["categories"@] + o.3)).subrange(0, i as int),
                        decreases keys@.len() - i,
                    {
                        let k = &keys[i];
                        let path = vec![String::from_str("categories"), k.clone(), String::from_str("terrain_override")];
                        assert(strings_of(path@) =~= seq!["categories"@, k@, "terrain_override"@]);
                        let o = GeoOption { key: k.clone(), name: loc_resolve(loc, k.as_str()), file: String::from_str("map/terrain.txt"), list_path: path };
                        let ghost before = terrains@;
                        terrains.push(o);
                        assert(seq!["categories"@] + (seq![k@] + seq!["terrain_override"@]) =~= seq!["categories"@, k@, "terrain_override"@]);
                        assert(options_view(terrains@) =~= options_view(before).push(option_view(o)));
                        assert(options_view(terrains@) =~= options_spec(loc_view(loc@), kv, "map/terrain.txt"@, seq!["terrain_override"@]).map_values(
                            |o: (Seq<char>, Seq<char>, Seq<char>, Seq<Seq<char>>)| (o.0, o.1, o.2, seq!["categories"@] + o.3)).subrange(0, i + 1));
                        i = i + 1;
                    }
                    assert(options_spec(loc_view(loc@), kv, "map/terrain.txt"@, seq!["terrain_override"@]).map_values(
                        |o: (Seq<char>, Seq<char>, Seq<char>, Seq<Seq<char>>)| (o.0, o.1, o.2, seq!["categories"@] + o.3)).subrange(0, keys@.len() as int)
                        =~= options_spec(loc_view(loc@), kv, "map/terrain.txt"@, seq!["terrain_override"@]).map_values(
                        |o: (Seq<char>, Seq<char>, Seq<char>, Seq<Seq<char>>)| (o.0, o.1, o.2, seq!["categories"@] + o.3)));
                },
                None => {
                    assert(options_view(terrains@) =~= Seq::<(Seq<char>, Seq<char>, Seq<char>, Seq<Seq<char>>)>::empty());
                },
            }
        },
        None => {
            assert(options_view(terrains@) =~= Seq::<(Seq<char>, Seq<char>, Seq<char>, Seq<Seq<char>>)>::empty());
        },
    }
    // Trade nodes: every .txt file, each node recording its own file.
    let mut trade_nodes: Vec<GeoOption> = Vec::new();
    let ghost fv = tradenodes@.map_values(|f: (String, Vec<u8>)| (f.0@, f.1@));
    let members = vec![String::from_str("members")];
    assert(strings_of(members@) =~= seq!["members"@]);
    let mut i: usize = 0;
    while i < tradenodes.len()
        invariant
            i <= tradenodes@.len(),
            fv == tradenodes@.map_values(|f: (String, Vec<u8>)| (f.0@, f.1@)),
            strings_of(members@) == seq!["members"@],
            options_view(trade_nodes@) == node_options(loc_view(loc@), fv.subrange(0, i as int)),
        decreases tradenodes@.len() - i,
    {
        let ghost sub = fv.subrange(0, i + 1);
        assert(sub.drop_last() =~= fv.subrange(0, i as int));
        assert(sub.last() == (tradenodes@[i as int].0@, tradenodes@[i as int].1@));
        let (name, bytes) = (&tradenodes[i].0, &tradenodes[i].1);
        if is_txt(name.as_str()) {
            let text = lossy_string(bytes.as_slice());
            let block = parse(text.as_str());
            let keys = keys_of_block(&block);
            let mut rel = String::from_str("common/tradenodes/");
            rel.append(name.as_str());
            append_options(&mut trade_nodes, loc, &keys, rel.as_str(), &members);
        }
        i = i + 1;
    }
    assert(fv.subrange(0, tradenodes@.len() as int) =~= fv);
    let mut climate_zones: Vec<GeoOption> = Vec::new();
    let cz = str_vec(&vec!["tropical", "arid", "arctic"]);
    append_options(&mut climate_zones, loc, &cz, "map/climate.txt", &none);
    let mut winters: Vec<GeoOption> = Vec::new();
    let wz = str_vec(&vec!["mild_winter", "normal_winter", "severe_winter"]);
    append_options(&mut winters, loc, &wz, "map/climate.txt", &none);
    proof {
        assert(options_view(climate_zones@) =~= options_spec(loc_view(loc@), seq!["tropical"@, "arid"@, "arctic"@], "map/climate.txt"@, Seq::empty()));
        assert(options_view(winters@) =~= options_spec(loc_view(loc@), seq!["mild_winter"@, "normal_winter"@, "severe_winter"@], "map/climate.txt"@, Seq::empty()));
    }
    GeoOptions {
        areas,
        continents,
        trade_nodes,
        terrains,
        climate_zones,
        winters,
        impassable_file: String::from_str("map/climate.txt"),
        continent_file: String::from_str(CONTINENT_FILE),
    }
}


// ---------------------------------------------------------------------------
// Geography joins
// ---------------------------------------------------------------------------

/// A raw key with its localized display name.
#[derive(Debug, Clone)]
pub struct KeyName {
    pub key: String,
    pub name: String,
}

pub open spec fn key_name_view(k: Option<KeyName>) -> Option<(Seq<char>, Seq<char>)> {
    match k {
        Some(x) => Some((x.key@, x.name@)),
        None => None,
    }
}

pub open spec fn key_name_spec(loc: Seq<(Seq<char>, Seq<char>)>, k: Option<Seq<char>>) -> Option<(Seq<char>, Seq<char>)> {
    match k {
        Some(x) => Some((x, resolve_spec(loc, x))),
        None => None,
    }
}

fn key_name(loc: &[(String, String)], k: Option<String>) -> (r: Option<KeyName>)
    ensures
        key_name_view(r) == key_name_spec(loc_view(loc@), opt_view(k)),
{
    match k {
        Some(x) => {
            let name = loc_resolve(loc, x.as_str());
            Some(KeyName { key: x, name })
        },
        None => None,
    }
}

/// The list a membership block holds: the block itself, or its `sub` block.
pub open spec fn list_of(b: Seq<(Option<Seq<char>>, VValue)>, sub: Option<Seq<char>>) -> Option<Seq<(Option<Seq<char>>, VValue)>> {
    match sub {
        None => Some(b),
        Some(s) => vblock_of(b, s),
    }
}

/// Whether a list holds the number `id` among its bare tokens.
pub open spec fn lists_id(l: Option<Seq<(Option<Seq<char>>, VValue)>>, id: u32) -> bool {
    l matches Some(x) && parsed_ids(vbare_texts(x)).contains(id)
}

/// Whether a list holds the token `t` among its bare tokens.
pub open spec fn lists_text(l: Option<Seq<(Option<Seq<char>>, VValue)>>, t: Seq<char>) -> bool {
    l matches Some(x) && vbare_texts(x).contains(t)
}

/// The first key of `kb[i..]` whose list (see [`list_of`]) holds `id`.
pub open spec fn first_with_id(kb: Seq<(Seq<char>, Seq<(Option<Seq<char>>, VValue)>)>, id: u32, sub: Option<Seq<char>>, i: int) -> Option<Seq<char>>
    decreases kb.len() - i,
{
    if i < 0 || i >= kb.len() {
        None
    } else if lists_id(list_of(kb[i].1, sub), id) {
        Some(kb[i].0)
    } else {
        first_with_id(kb, id, sub, i + 1)
    }
}

/// The first key of `kb[i..]` whose list holds the token `t`.
pub open spec fn first_with_text(kb: Seq<(Seq<char>, Seq<(Option<Seq<char>>, VValue)>)>, t: Seq<char>, sub: Option<Seq<char>>, i: int) -> Option<Seq<char>>
    decreases kb.len() - i,
{
    if i < 0 || i >= kb.len() {
        None
    } else if lists_text(list_of(kb[i].1, sub), t) {
        Some(kb[i].0)
    } else {
        first_with_text(kb, t, sub, i + 1)
    }
}

/// Every key of `kb` whose own list holds `id`, in order.
pub open spec fn keys_with_id(kb: Seq<(Seq<char>, Seq<(Option<Seq<char>>, VValue)>)>, id: u32) -> Seq<Seq<char>>
    decreases kb.len(),
{
    if kb.len() == 0 {
        Seq::empty()
    } else {
        let rest = keys_with_id(kb.drop_last(), id);
        if lists_id(Some(kb.last().1), id) { rest.push(kb.last().0) } else { rest }
    }
}

fn list_block<'a>(b: &'a Block, sub: Option<&str>) -> (r: Option<&'a Block>)
    ensures
        match r {
            Some(x) => list_of(b.vview(), str_opt(sub)) == Some(x.vview()),
            None => list_of(b.vview(), str_opt(sub)) is None,
        },
{
    match sub {
        None => Some(b),
        Some(s) => {
            proof {
                lemma_block_view(b.items@, s@);
            }
            b.get_block(s)
        },
    }
}

pub open spec fn str_opt(o: Option<&str>) -> Option<Seq<char>> {
    match o {
        Some(s) => Some(s@),
        None => None,
    }
}

fn holds_id(x: &Block, id: u32) -> (r: bool)
    ensures
        r == lists_id(Some(x.vview()), id),
{
    proof {
        lemma_bare_view(x.items@);
    }
    let ids = x.bare_ids();
    let mut i: usize = 0;
    while i < ids.len()
        invariant
            i <= ids@.len(),
            ids@ == parsed_ids(vbare_texts(x.vview())),
            forall|m: int| 0 <= m < i ==> ids@[m] != id,
        decreases ids@.len() - i,
    {
        if ids[i] == id {
            assert(ids@ == parsed_ids(vbare_texts(x.vview())));
            assert(ids@[i as int] == id);
            assert(parsed_ids(vbare_texts(x.vview())).contains(id));
            assert(lists_id(Some(x.vview()), id));
            return true;
        }
        i = i + 1;
    }
    false
}

fn holds_text(x: &Block, t: &str) -> (r: bool)
    ensures
        r == lists_text(Some(x.vview()), t@),
{
    proof {
        lemma_bare_view(x.items@);
    }
    let bare = x.bare_scalars();
    let mut i: usize = 0;
    while i < bare.len()
        invariant
            i <= bare@.len(),
            bare@.len() == vbare_texts(x.vview()).len(),
            forall|k: int| 0 <= k < bare@.len() ==> (#[trigger] bare@[k])@ == vbare_texts(x.vview())[k],
            forall|m: int| 0 <= m < i ==> vbare_texts(x.vview())[m] != t@,
        decreases bare@.len() - i,
    {
        if str_eq(bare[i], t) {
            assert(vbare_texts(x.vview())[i as int] == t@);
            assert(vbare_texts(x.vview()).contains(t@));
            assert(lists_text(Some(x.vview()), t@));
            return true;
        }
        i = i + 1;
    }
    false
}

/// The first keyed block of `b` whose list holds `id` (as [`first_with_id`]).
fn find_with_id(b: &Block, id: u32, sub: Option<&str>) -> (r: Option<String>)
    ensures
        opt_view(r) == first_with_id(vkeyed_blocks(b.vview()), id, str_opt(sub), 0),
{
    proof {
        lemma_keyed_view(b.items@);
    }
    let ghost kb = vkeyed_blocks(b.vview());
    let kids = b.key_blocks();
    let mut i: usize = 0;
    while i < kids.len()
        invariant
            i <= kids@.len(),
            kids@.len() == kb.len(),
            kb == vkeyed_blocks(b.vview()),
            forall|k: int| 0 <= k < kids@.len() ==> (#[trigger] kids@[k]).0@ == kb[k].0 && kids@[k].1.vview() == kb[k].1,
            first_with_id(kb, id, str_opt(sub), i as int) == first_with_id(kb, id, str_opt(sub), 0),
        decreases kids@.len() - i,
    {
        let (k, kb_i) = kids[i];
        if match list_block(kb_i, sub) {
            Some(x) => holds_id(x, id),
            None => false,
        } {
            return Some(String::from_str(k));
        }
        i = i + 1;
    }
    None
}

/// The first keyed block of `b` whose list holds the token `t`.
fn find_with_text(b: &Block, t: &str, sub: Option<&str>) -> (r: Option<String>)
    ensures
        opt_view(r) == first_with_text(vkeyed_blocks(b.vview()), t@, str_opt(sub), 0),
{
    proof {
        lemma_keyed_view(b.items@);
    }
    let ghost kb = vkeyed_blocks(b.vview());
    let kids = b.key_blocks();
    let mut i: usize = 0;
    while i < kids.len()
        invariant
            i <= kids@.len(),
            kids@.len() == kb.len(),
            kb == vkeyed_blocks(b.vview()),
            forall|k: int| 0 <= k < kids@.len() ==> (#[trigger] kids@[k]).0@ == kb[k].0 && kids@[k].1.vview() == kb[k].1,
            first_with_text(kb, t@, str_opt(sub), i as int) == first_with_text(kb, t@, str_opt(sub), 0),
        decreases kids@.len() - i,
    {
        let (k, kb_i) = kids[i];
        if match list_block(kb_i, sub) {
            Some(x) => holds_text(x, t),
            None => false,
        } {
            return Some(String::from_str(k));
        }
        i = i + 1;
    }
    None
}

/// Every keyed block of `b` whose own list holds `id`.
fn all_with_id(b: &Block, id: u32) -> (r: Vec<String>)
    ensures
        strings_of(r@) == keys_with_id(vkeyed_blocks(b.vview()), id),
{
    proof {
        lemma_keyed_view(b.items@);
    }
    let ghost kb = vkeyed_blocks(b.vview());
    let kids = b.key_blocks();
    let mut out: Vec<String> = Vec::new();
    let mut i: usize = 0;
    while i < kids.len()
        invariant
            i <= kids@.len(),
            kids@.len() == kb.len(),
            kb == vkeyed_blocks(b.vview()),
            forall|k: int| 0 <= k < kids@.len() ==> (#[trigger] kids@[k]).0@ == kb[k].0 && kids@[k].1.vview() == kb[k].1,
            strings_of(out@) == keys_with_id(kb.subrange(0, i as int), id),
        decreases kids@.len() - i,
    {
        assert(kb.subrange(0, i + 1).drop_last() =~= kb.subrange(0, i as int));
        assert(kb.subrange(0, i + 1).last() == kb[i as int]);
        let (k, kb_i) = kids[i];
        if holds_id(kb_i, id) {
            let ghost before = out@;
            out.push(String::from_str(k));
            assert(strings_of(out@) =~= strings_of(before).push(k@));
        }
        i = i + 1;
    }
    assert(kb.subrange(0, kids@.len() as int) =~= kb);
    out
}

/// The first of `keys` that is one of `among`.
pub open spec fn first_among(keys: Seq<Seq<char>>, among: Seq<Seq<char>>) -> Option<Seq<char>>
    decreases keys.len(),
{
    if keys.len() == 0 {
        None
    } else if among.contains(keys[0]) {
        Some(keys[0])
    } else {
        first_among(keys.drop_first(), among)
    }
}

fn pick_among(keys: &Vec<String>, among: &Vec<&'static str>) -> (r: Option<String>)
    ensures
        opt_view(r) == first_among(strings_of(keys@), crate::fields::texts(among@)),
{
    let ghost kv = strings_of(keys@);
    let mut i: usize = 0;
    assert(kv.skip(0) =~= kv);
    while i < keys.len()
        invariant
            i <= keys@.len(),
            kv == strings_of(keys@),
            first_among(kv.skip(i as int), crate::fields::texts(among@)) == first_among(kv, crate::fields::texts(among@)),
        decreases keys@.len() - i,
    {
        assert(kv.skip(i as int)[0] == keys@[i as int]@);
        assert(kv.skip(i as int).drop_first() =~= kv.skip(i + 1));
        if crate::fields::contains_static(among, keys[i].as_str()) {
            return Some(keys[i].clone());
        }
        i = i + 1;
    }
    assert(kv.skip(i as int) =~= Seq::<Seq<char>>::empty());
    None
}

/// A parsed map file given its bytes (none when unreadable).
pub open spec fn parsed(b: Option<Seq<u8>>) -> Option<Seq<(Option<Seq<char>>, VValue)>> {
    match b {
        Some(x) => Some(parse_spec(lossy_utf8(x))),
        None => None,
    }
}

fn parse_opt(b: Option<&[u8]>) -> (r: Option<Block>)
    ensures
        match r {
            Some(x) => parsed(bytes_opt(b)) == Some(x.vview()),
            None => parsed(bytes_opt(b)) is None,
        },
{
    match b {
        Some(x) => {
            let text = lossy_string(x);
            Some(parse(text.as_str()))
        },
        None => None,
    }
}

/// The map files a province's geography joins, as read (none when
/// unreadable).
pub struct MapFiles<'a> {
    pub area: Option<&'a [u8]>,
    pub region: Option<&'a [u8]>,
    pub superregion: Option<&'a [u8]>,
    pub tradenodes: Option<&'a [u8]>,
    pub climate: Option<&'a [u8]>,
    pub continent: Option<&'a [u8]>,
    pub terrain: Option<&'a [u8]>,
    pub default_map: Option<&'a [u8]>,
}

/// Joined geography of a province.
#[derive(Debug, Clone)]
pub struct Geography {
    pub area: Option<KeyName>,
    pub region: Option<KeyName>,
    pub superregion: Option<KeyName>,
    pub trade_node: Option<KeyName>,
    /// Climate zone (tropical/arid/arctic); absent = temperate.
    pub climate: Option<KeyName>,
    /// Winter severity; absent = no winter.
    pub winter: Option<KeyName>,
    pub impassable: bool,
    pub monsoon: Option<KeyName>,
    pub continent: Option<KeyName>,
    /// Terrain type whose `terrain_override` list holds the province.
    pub terrain_override: Option<KeyName>,
    /// Sea or lake (from `default.map`).
    pub water: bool,
}

/// The key of the first keyed block of a parsed file whose list holds `id`.
pub open spec fn file_first_id(f: Option<Seq<(Option<Seq<char>>, VValue)>>, id: u32, sub: Option<Seq<char>>) -> Option<Seq<char>> {
    match f {
        Some(items) => first_with_id(vkeyed_blocks(items), id, sub, 0),
        None => None,
    }
}

/// The area holding `id`, the region listing that area, the superregion
/// listing that region.
pub open spec fn area_spec(m: Option<Seq<u8>>, id: u32) -> Option<Seq<char>> {
    file_first_id(parsed(m), id, None)
}

pub open spec fn region_spec(m: Option<Seq<u8>>, area: Seq<char>) -> Option<Seq<char>> {
    match parsed(m) {
        Some(items) => first_with_text(vkeyed_blocks(items), area, Some("areas"@), 0),
        None => None,
    }
}

pub open spec fn superregion_spec(m: Option<Seq<u8>>, region: Seq<char>) -> Option<Seq<char>> {
    match parsed(m) {
        Some(items) => first_with_text(vkeyed_blocks(items), region, None, 0),
        None => None,
    }
}

/// The terrain type of `map/terrain.txt` whose `terrain_override` holds `id`.
pub open spec fn terrain_spec(m: Option<Seq<u8>>, id: u32) -> Option<Seq<char>> {
    match parsed(m) {
        Some(items) => match vblock_of(items, "categories"@) {
            Some(c) => first_with_id(vkeyed_blocks(c), id, Some("terrain_override"@), 0),
            None => None,
        },
        None => None,
    }
}

/// The keys of a `key = { ids }` file whose list holds `id`.
pub open spec fn lists_holding(m: Option<Seq<u8>>, id: u32) -> Seq<Seq<char>> {
    match parsed(m) {
        Some(items) => keys_with_id(vkeyed_blocks(items), id),
        None => Seq::empty(),
    }
}

/// Whether `default.map` lists `id` among `sea_starts` or `lakes`.
pub open spec fn water_spec(m: Option<Seq<u8>>, id: u32) -> bool {
    match parsed(m) {
        Some(items) => lists_id(vblock_of(items, "sea_starts"@), id) || lists_id(vblock_of(items, "lakes"@), id),
        None => false,
    }
}

pub open spec fn geography_view(g: Geography) -> (
    Option<(Seq<char>, Seq<char>)>, Option<(Seq<char>, Seq<char>)>, Option<(Seq<char>, Seq<char>)>, Option<(Seq<char>, Seq<char>)>,
    Option<(Seq<char>, Seq<char>)>, Option<(Seq<char>, Seq<char>)>, bool, Option<(Seq<char>, Seq<char>)>,
    Option<(Seq<char>, Seq<char>)>, Option<(Seq<char>, Seq<char>)>, bool,
) {
    (key_name_view(g.area), key_name_view(g.region), key_name_view(g.superregion), key_name_view(g.trade_node),
     key_name_view(g.climate), key_name_view(g.winter), g.impassable, key_name_view(g.monsoon),
     key_name_view(g.continent), key_name_view(g.terrain_override), g.water)
}

/// The joined geography of province `id`: area, its region and that
/// region's superregion (each only when the one before was found), trade
/// node (`members`), the first climate zone, winter and monsoon among the
/// `climate.txt` lists holding it, whether `impassable` holds it, the first
/// continent holding it, the terrain override, and whether it is water.
pub open spec fn geography_spec(m: MapFiles, loc: Seq<(Seq<char>, Seq<char>)>, id: u32) -> (
    Option<(Seq<char>, Seq<char>)>, Option<(Seq<char>, Seq<char>)>, Option<(Seq<char>, Seq<char>)>, Option<(Seq<char>, Seq<char>)>,
    Option<(Seq<char>, Seq<char>)>, Option<(Seq<char>, Seq<char>)>, bool, Option<(Seq<char>, Seq<char>)>,
    Option<(Seq<char>, Seq<char>)>, Option<(Seq<char>, Seq<char>)>, bool,
) {
    let area = area_spec(bytes_opt(m.area), id);
    let region = match area {
        Some(a) => region_spec(bytes_opt(m.region), a),
        None => None,
    };
    let superregion = match region {
        Some(r) => superregion_spec(bytes_opt(m.superregion), r),
        None => None,
    };
    let climate = lists_holding(bytes_opt(m.climate), id);
    let continents = lists_holding(bytes_opt(m.continent), id);
    (
        key_name_spec(loc, area),
        key_name_spec(loc, region),
        key_name_spec(loc, superregion),
        key_name_spec(loc, file_first_id(parsed(bytes_opt(m.tradenodes)), id, Some("members"@))),
        key_name_spec(loc, first_among(climate, seq!["tropical"@, "arid"@, "arctic"@])),
        key_name_spec(loc, first_among(climate, seq!["mild_winter"@, "normal_winter"@, "severe_winter"@])),
        climate.contains("impassable"@),
        key_name_spec(loc, first_among(climate, seq!["mild_monsoon"@, "normal_monsoon"@, "severe_monsoon"@])),
        key_name_spec(loc, if continents.len() > 0 { Some(continents[0]) } else { None }),
        key_name_spec(loc, terrain_spec(bytes_opt(m.terrain), id)),
        water_spec(bytes_opt(m.default_map), id),
    )
}

fn all_holding(m: Option<&[u8]>, id: u32) -> (r: Vec<String>)
    ensures
        strings_of(r@) == lists_holding(bytes_opt(m), id),
{
    match parse_opt(m) {
        Some(b) => all_with_id(&b, id),
        None => {
            let v: Vec<String> = Vec::new();
            assert(strings_of(v@) =~= Seq::<Seq<char>>::empty());
            v
        },
    }
}

fn contains_text_of(v: &Vec<String>, t: &str) -> (r: bool)
    ensures
        r == strings_of(v@).contains(t@),
{
    crate::fields::contains_text(v, t)
}

/// The joined geography of province `id` from the map files (see
/// [`geography_spec`]).
pub fn geography(m: &MapFiles, loc: &[(String, String)], id: u32) -> (r: Geography)
    ensures
        geography_view(r) == geography_spec(*m, loc_view(loc@), id),
{
    let area = match parse_opt(m.area) {
        Some(b) => find_with_id(&b, id, None),
        None => None,
    };
    let region = match &area {
        Some(a) => match parse_opt(m.region) {
            Some(b) => find_with_text(&b, a.as_str(), Some("areas")),
            None => None,
        },
        None => None,
    };
    let superregion = match &region {
        Some(rg) => match parse_opt(m.superregion) {
            Some(b) => find_with_text(&b, rg.as_str(), None),
            None => None,
        },
        None => None,
    };
    let trade_node = match parse_opt(m.tradenodes) {
        Some(b) => find_with_id(&b, id, Some("members")),
        None => None,
    };
    let climate = all_holding(m.climate, id);
    let continents = all_holding(m.continent, id);
    let terrain = match parse_opt(m.terrain) {
        Some(b) => {
            proof {
                lemma_block_view(b.items@, "categories"@);
            }
            match b.get_block("categories") {
                Some(c) => find_with_id(c, id, Some("terrain_override")),
                None => None,
            }
        },
        None => None,
    };
    let water = match parse_opt(m.default_map) {
        Some(b) => {
            proof {
                lemma_block_view(b.items@, "sea_starts"@);
                lemma_block_view(b.items@, "lakes"@);
            }
            (match b.get_block("sea_starts") {
                Some(x) => holds_id(x, id),
                None => false,
            }) || (match b.get_block("lakes") {
                Some(x) => holds_id(x, id),
                None => false,
            })
        },
        None => false,
    };
    let zones = vec!["tropical", "arid", "arctic"];
    let winters = vec!["mild_winter", "normal_winter", "severe_winter"];
    let monsoons = vec!["mild_monsoon", "normal_monsoon", "severe_monsoon"];
    assert(crate::fields::texts(zones@) =~= seq!["tropical"@, "arid"@, "arctic"@]);
    assert(crate::fields::texts(winters@) =~= seq!["mild_winter"@, "normal_winter"@, "severe_winter"@]);
    assert(crate::fields::texts(monsoons@) =~= seq!["mild_monsoon"@, "normal_monsoon"@, "severe_monsoon"@]);
    let continent = if continents.len() > 0 { Some(continents[0].clone()) } else { None };
    let g = Geography {
        area: key_name(loc, area),
        region: key_name(loc, region),
        superregion: key_name(loc, superregion),
        trade_node: key_name(loc, trade_node),
        climate: key_name(loc, pick_among(&climate, &zones)),
        winter: key_name(loc, pick_among(&climate, &winters)),
        impassable: contains_text_of(&climate, "impassable"),
        monsoon: key_name(loc, pick_among(&climate, &monsoons)),
        continent: key_name(loc, continent),
        terrain_override: key_name(loc, terrain),
        water,
    };
    g
}

// ---------------------------------------------------------------------------
// Names from map/definition.csv
// ---------------------------------------------------------------------------

/// Field `n` (0-based) of a `;`-separated line.
pub open spec fn nth_field(s: Seq<char>, n: nat) -> Option<Seq<char>>
    decreases n,
{
    match first_sub_from(s, ";"@, 0) {
        Some(i) => if n == 0 {
            Some(s.subrange(0, i))
        } else {
            nth_field(s.subrange(i + 1, s.len() as int), (n - 1) as nat)
        },
        None => if n == 0 {
            Some(s)
        } else {
            None
        },
    }
}

/// The `(id, name)` a definition line gives: its first field trimmed read
/// as a `u32`, and its fifth field trimmed; none when either is missing.
pub open spec fn line_entry(line: Seq<char>) -> Option<(u32, Seq<char>)> {
    match nth_field(line, 0) {
        Some(f0) => match parse_unsigned(vstd::utf8::encode_utf8(trim_spec(f0, false)), u32::MAX as nat) {
            Some(id) => match nth_field(line, 4) {
                Some(nm) => Some((id as u32, trim_spec(nm, false))),
                None => None,
            },
            None => None,
        },
        None => None,
    }
}

/// The name the last line giving an entry for `id` gives it.
pub open spec fn def_name_spec(lines: Seq<Seq<char>>, id: u32) -> Option<Seq<char>>
    decreases lines.len(),
{
    if lines.len() == 0 {
        None
    } else {
        match line_entry(lines.last()) {
            Some(e) => if e.0 == id {
                Some(e.1)
            } else {
                def_name_spec(lines.drop_last(), id)
            },
            None => def_name_spec(lines.drop_last(), id),
        }
    }
}

/// The `map/definition.csv` name of province `id` (none when the file is
/// unreadable or lists no name for it).
pub open spec fn definition_name_spec(csv: Option<Seq<u8>>, id: u32) -> Option<Seq<char>> {
    match csv {
        Some(b) => def_name_spec(lines_from(lossy_utf8(b), 0), id),
        None => None,
    }
}

fn field_of(s: Vec<char>, n: usize) -> (r: Option<Vec<char>>)
    ensures
        match r {
            Some(f) => nth_field(s@, n as nat) == Some(f@),
            None => nth_field(s@, n as nat) is None,
        },
{
    let mut cur = s;
    let mut k = n;
    let mut semi: Vec<char> = Vec::new();
    semi.push(';');
    proof {
        reveal_strlit(";");
    }
    assert(semi@ =~= ";"@);
    loop
        invariant
            nth_field(cur@, k as nat) == nth_field(s@, n as nat),
            semi@ == ";"@,
            semi@.len() == 1,
        decreases k,
    {
        let len = cur.len();
        assert(cur@.subrange(0, len as int) =~= cur@);
        proof {
            lemma_first_sub(cur@, ";"@, 0);
        }
        match find_pattern(&cur, len, &semi) {
            Some(i) => {
                if k == 0 {
                    return Some(chars_from(&cur, 0, i));
                }
                let rest = chars_from(&cur, i + 1, len);
                cur = rest;
                k = k - 1;
            },
            None => {
                if k == 0 {
                    return Some(cur);
                }
                return None;
            },
        }
    }
}

fn line_entry_exec(line: &str) -> (r: Option<(u32, String)>)
    ensures
        match r {
            Some((id, nm)) => line_entry(line@) == Some((id, nm@)),
            None => line_entry(line@) is None,
        },
{
    let f0 = match field_of(chars_of(line), 0) {
        Some(f) => f,
        None => return None,
    };
    let t0 = trim_chars(f0.as_slice(), false);
    let t0s = string_from_chars(t0.as_slice());
    let b = t0s.as_str().as_bytes();
    assert(b@ == vstd::utf8::encode_utf8(t0s@));
    let id = match parse_unsigned_bytes(b, 0xFFFF_FFFFu64) {
        Some(v) => v as u32,
        None => return None,
    };
    let f4 = match field_of(chars_of(line), 4) {
        Some(f) => f,
        None => return None,
    };
    let t4 = trim_chars(f4.as_slice(), false);
    Some((id, string_from_chars(t4.as_slice())))
}

/// The `map/definition.csv` name of province `id`, from the file's bytes
/// when it was read (see [`definition_name_spec`]).
pub fn definition_name(csv: Option<&[u8]>, id: u32) -> (r: Option<String>)
    ensures
        opt_view(r) == definition_name_spec(bytes_opt(csv), id),
{
    let ghost want = definition_name_spec(bytes_opt(csv), id);
    let b = match csv {
        Some(b) => b,
        None => return None,
    };
    let text = lossy_string(b);
    let lines = split_lines(text.as_str());
    let ghost lv = strings_of(lines@);
    let mut i = lines.len();
    assert(lv.take(i as int) =~= lv);
    assert(want == def_name_spec(lv, id));
    while i > 0
        invariant
            i <= lines@.len(),
            lv == strings_of(lines@),
            lv == lines_from(lossy_utf8(b@), 0),
            want == def_name_spec(lv, id),
            want == definition_name_spec(bytes_opt(csv), id),
            def_name_spec(lv, id) == def_name_spec(lv.take(i as int), id),
        decreases i,
    {
        assert(lv.take(i as int).last() == lines@[i - 1]@);
        assert(lv.take(i as int).drop_last() =~= lv.take(i - 1));
        match line_entry_exec(lines[i - 1].as_str()) {
            Some((e, nm)) => {
                if e == id {
                    assert(lv.take(i as int).len() > 0);
                    assert(line_entry(lv.take(i as int).last()) == Some((e, nm@)));
                    assert(def_name_spec(lv.take(i as int), id) == Some(nm@));
                    return Some(nm);
                }
            },
            None => {},
        }
        i = i - 1;
    }
    assert(lv.take(0) =~= Seq::<Seq<char>>::empty());
    None
}

// ---------------------------------------------------------------------------
// The history file of a province
// ---------------------------------------------------------------------------

/// The first listed history file (`.txt`, its name starting with the id)
/// of province `id`.
pub open spec fn chosen_file(files: Seq<(Seq<char>, Seq<u8>)>, id: u32, i: int) -> Option<(Seq<char>, Seq<u8>)>
    decreases files.len() - i,
{
    if i < 0 || i >= files.len() {
        None
    } else if is_txt_name(files[i].0) && file_id(files[i].0) == Some(id) {
        Some(files[i])
    } else {
        chosen_file(files, id, i + 1)
    }
}

/// The definition name when it is not empty, else `Province <id>`.
pub open spec fn fallback_name(def: Option<Seq<char>>, id: u32) -> Seq<char> {
    match def {
        Some(n) => if n.len() > 0 {
            n
        } else {
            "Province "@ + decimal(id as nat)
        },
        None => "Province "@ + decimal(id as nat),
    }
}

/// The game-relative path, bytes and existence of province `id`'s history
/// file: the chosen listed file, else a synthesized
/// `history/provinces/<id> - <name>.txt` with no content.
pub open spec fn history_path(files: Seq<(Seq<char>, Seq<u8>)>, id: u32, def: Option<Seq<char>>) -> (Seq<char>, Seq<u8>, bool) {
    match chosen_file(files, id, 0) {
        Some(f) => ("history/provinces/"@ + f.0, f.1, true),
        None => ("history/provinces/"@ + decimal(id as nat) + " - "@ + fallback_name(def, id) + ".txt"@, Seq::empty(), false),
    }
}

fn copy_bytes(b: &[u8]) -> (r: Vec<u8>)
    ensures
        r@ == b@,
{
    let mut out: Vec<u8> = Vec::new();
    let mut i: usize = 0;
    while i < b.len()
        invariant
            i <= b@.len(),
            out@ == b@.subrange(0, i as int),
        decreases b@.len() - i,
    {
        out.push(b[i]);
        assert(out@ =~= b@.subrange(0, i + 1));
        i = i + 1;
    }
    assert(out@ =~= b@);
    out
}

fn fallback_name_exec(def: &Option<String>, id: u32) -> (r: String)
    ensures
        r@ == fallback_name(opt_view(*def), id),
{
    match def {
        Some(n) => {
            if n.as_str().unicode_len() > 0 {
                return n.clone();
            }
        },
        None => {},
    }
    let mut s = String::from_str("Province ");
    let d = usize_to_string(id as usize);
    s.append(d.as_str());
    proof {
        reveal_strlit("Province ");
    }
    s
}

/// The history file of province `id` among the listed files `(name,
/// bytes)` (those that could be read), given its definition name (see
/// [`history_path`]).
pub fn history_file(files: &Vec<(String, Vec<u8>)>, id: u32, def: &Option<String>) -> (r: (String, Vec<u8>, bool))
    ensures
        (r.0@, r.1@, r.2) == history_path(files@.map_values(|f: (String, Vec<u8>)| (f.0@, f.1@)), id, opt_view(*def)),
{
    let ghost fv = files@.map_values(|f: (String, Vec<u8>)| (f.0@, f.1@));
    let mut i: usize = 0;
    while i < files.len()
        invariant
            i <= files@.len(),
            fv == files@.map_values(|f: (String, Vec<u8>)| (f.0@, f.1@)),
            fv.len() == files@.len(),
            chosen_file(fv, id, i as int) == chosen_file(fv, id, 0),
        decreases files@.len() - i,
    {
        assert(fv[i as int] == (files@[i as int].0@, files@[i as int].1@));
        let name = files[i].0.as_str();
        if is_txt(name) && leading_id(name) == Some(id) {
            let mut path = String::from_str("history/provinces/");
            path.append(name);
            let bytes = copy_bytes(files[i].1.as_slice());
            return (path, bytes, true);
        }
        i = i + 1;
    }
    let mut path = String::from_str("history/provinces/");
    let d = usize_to_string(id as usize);
    path.append(d.as_str());
    path.append(" - ");
    let nm = fallback_name_exec(def, id);
    path.append(nm.as_str());
    path.append(".txt");
    let empty: Vec<u8> = Vec::new();
    assert(empty@ =~= Seq::<u8>::empty());
    (path, empty, false)
}

// ---------------------------------------------------------------------------
// Dated blocks and the effective state
// ---------------------------------------------------------------------------

/// One dated history block.
#[derive(Debug, Clone)]
pub struct DatedBlock {
    /// The date key exactly as written, e.g. `1453.5.29`.
    pub date: String,
    /// Its date is later than the viewed date.
    pub post_start: bool,
    /// 0-based index among the blocks written with this exact date key, in
    /// file order.
    pub occurrence_index: usize,
    /// The block's statements, in file order.
    pub entries: Vec<RawStatement>,
}

pub open spec fn statements_view(v: Seq<RawStatement>) -> Seq<(Seq<char>, Seq<char>, bool)> {
    v.map_values(|r: RawStatement| statement_view(r))
}

/// The statements of a block, each as displayed.
pub open spec fn statements_spec(b: Seq<(Option<Seq<char>>, VValue)>) -> Seq<(Seq<char>, Seq<char>, bool)> {
    Seq::new(b.len(), |i: int| statement_spec(b[i].0, b[i].1))
}

pub open spec fn dated_block_view(d: DatedBlock) -> (Seq<char>, bool, nat, Seq<(Seq<char>, Seq<char>, bool)>) {
    (d.date@, d.post_start, d.occurrence_index as nat, statements_view(d.entries@))
}

pub open spec fn dated_view(v: Seq<DatedBlock>) -> Seq<(Seq<char>, bool, nat, Seq<(Seq<char>, Seq<char>, bool)>)> {
    v.map_values(|d: DatedBlock| dated_block_view(d))
}

/// How many of the blocks have date key `k`.
pub open spec fn count_date(d: Seq<(Seq<char>, bool, nat, Seq<(Seq<char>, Seq<char>, bool)>)>, k: Seq<char>) -> nat
    decreases d.len(),
{
    if d.len() == 0 {
        0
    } else {
        count_date(d.drop_last(), k) + if d.last().0 == k {
            1nat
        } else {
            0nat
        }
    }
}

/// The dated blocks among the first `n` items: every `key = { … }` whose
/// key reads as a date, with its key, whether that date is later than
/// `at`, its index among the earlier blocks with the same key, and its
/// statements.
pub open spec fn dated_spec(items: Seq<(Option<Seq<char>>, VValue)>, at: (u32, u32, u32), n: int) -> Seq<(Seq<char>, bool, nat, Seq<(Seq<char>, Seq<char>, bool)>)>
    decreases n,
{
    if n <= 0 {
        Seq::empty()
    } else {
        let rest = dated_spec(items, at, n - 1);
        match items[n - 1] {
            (Some(k), VValue::Block(b)) => match parse_date_spec(vstd::utf8::encode_utf8(k)) {
                Some(d) => rest.push((k, date_lt(at, d), count_date(rest, k), statements_spec(b))),
                None => rest,
            },
            _ => rest,
        }
    }
}

fn statements_of(b: &Block) -> (r: Vec<RawStatement>)
    ensures
        statements_view(r@) == statements_spec(b.vview()),
{
    proof {
        lemma_items_vview_index(b.items@);
    }
    let mut out: Vec<RawStatement> = Vec::new();
    let mut i: usize = 0;
    while i < b.items.len()
        invariant
            i <= b.items@.len(),
            b.vview().len() == b.items@.len(),
            forall|k: int| 0 <= k < b.items@.len() ==> #[trigger] b.vview()[k] == (key_view(b.items@[k].0), b.items@[k].1.vview()),
            out@.len() == i,
            forall|k: int| 0 <= k < i ==> #[trigger] statement_view(out@[k]) == statement_spec(b.vview()[k].0, b.vview()[k].1),
        decreases b.items@.len() - i,
    {
        let s = raw_statement(&b.items[i].0, &b.items[i].1);
        assert(b.vview()[i as int] == (key_view(b.items@[i as int].0), b.items@[i as int].1.vview()));
        out.push(s);
        i = i + 1;
    }
    assert(statements_view(out@) =~= statements_spec(b.vview()));
    out
}

fn count_dates(v: &Vec<DatedBlock>, k: &str) -> (r: usize)
    ensures
        r as nat == count_date(dated_view(v@), k@),
{
    let ghost dv = dated_view(v@);
    let mut c: usize = 0;
    let mut j: usize = 0;
    while j < v.len()
        invariant
            j <= v@.len(),
            dv == dated_view(v@),
            dv.len() == v@.len(),
            c <= j,
            c as nat == count_date(dv.take(j as int), k@),
        decreases v@.len() - j,
    {
        assert(dv.take(j + 1).drop_last() =~= dv.take(j as int));
        assert(dv.take(j + 1).last() == dated_block_view(v@[j as int]));
        if str_eq(v[j].date.as_str(), k) {
            c = c + 1;
        }
        j = j + 1;
    }
    assert(dv.take(v@.len() as int) =~= dv);
    c
}

/// Every dated block of a parsed history file in file order (see
/// [`dated_spec`]), flagged against the viewed date `at`.
pub fn dated_blocks_of(block: &Block, at: (u32, u32, u32)) -> (r: Vec<DatedBlock>)
    ensures
        dated_view(r@) == dated_spec(block.vview(), at, block.vview().len() as int),
{
    proof {
        lemma_items_vview_index(block.items@);
    }
    let ghost items = block.vview();
    let mut out: Vec<DatedBlock> = Vec::new();
    let mut i: usize = 0;
    while i < block.items.len()
        invariant
            i <= block.items@.len(),
            items == block.vview(),
            items.len() == block.items@.len(),
            forall|k: int| 0 <= k < block.items@.len() ==> #[trigger] items[k] == (key_view(block.items@[k].0), block.items@[k].1.vview()),
            dated_view(out@) == dated_spec(items, at, i as int),
        decreases block.items@.len() - i,
    {
        assert(items[i as int] == (key_view(block.items@[i as int].0), block.items@[i as int].1.vview()));
        match (&block.items[i].0, &block.items[i].1) {
            (Some(k), Value::Block(b)) => {
                match parse_date(k.as_str().as_bytes()) {
                    Some(d) => {
                        let occ = count_dates(&out, k.as_str());
                        let entries = statements_of(b);
                        let ghost before = dated_view(out@);
                        let db = DatedBlock { date: k.clone(), post_start: date_less(at, d), occurrence_index: occ, entries };
                        out.push(db);
                        assert(dated_view(out@) =~= before.push(dated_block_view(db)));
                    },
                    None => {},
                }
            },
            _ => {},
        }
        i = i + 1;
    }
    out
}

/// The state after applying every keyed statement of a block in order.
pub open spec fn apply_items(st: SnapView, b: Seq<(Option<Seq<char>>, VValue)>) -> SnapView
    decreases b.len(),
{
    if b.len() == 0 {
        st
    } else {
        let s2 = apply_items(st, b.drop_last());
        match b.last().0 {
            Some(k) => apply_spec(s2, k, b.last().1),
            None => s2,
        }
    }
}

/// The state after folding, onto `st`, every dated block among the first
/// `n` items whose date is not later than `at`, in file order.
pub open spec fn effective_spec(st: SnapView, items: Seq<(Option<Seq<char>>, VValue)>, at: (u32, u32, u32), n: int) -> SnapView
    decreases n,
{
    if n <= 0 {
        st
    } else {
        let prev = effective_spec(st, items, at, n - 1);
        match items[n - 1] {
            (Some(k), VValue::Block(b)) => match parse_date_spec(vstd::utf8::encode_utf8(k)) {
                Some(d) => if !date_lt(at, d) {
                    apply_items(prev, b)
                } else {
                    prev
                },
                None => prev,
            },
            _ => prev,
        }
    }
}

fn apply_block(st: &mut ProvinceStateSnapshot, b: &Block)
    ensures
        snap_view(*final(st)) == apply_items(snap_view(*old(st)), b.vview()),
{
    proof {
        lemma_items_vview_index(b.items@);
    }
    let ghost start = snap_view(*st);
    let ghost bv = b.vview();
    let mut i: usize = 0;
    while i < b.items.len()
        invariant
            i <= b.items@.len(),
            bv == b.vview(),
            bv.len() == b.items@.len(),
            forall|k: int| 0 <= k < b.items@.len() ==> #[trigger] bv[k] == (key_view(b.items@[k].0), b.items@[k].1.vview()),
            snap_view(*st) == apply_items(start, bv.take(i as int)),
        decreases b.items@.len() - i,
    {
        assert(bv.take(i + 1).drop_last() =~= bv.take(i as int));
        assert(bv.take(i + 1).last() == bv[i as int]);
        assert(bv[i as int] == (key_view(b.items@[i as int].0), b.items@[i as int].1.vview()));
        match &b.items[i].0 {
            Some(k) => st.apply(k.as_str(), &b.items[i].1),
            None => {},
        }
        i = i + 1;
    }
    assert(bv.take(b.items@.len() as int) =~= bv);
}

/// The state of a parsed history file as of `at`: its top level, then
/// every dated block not later than `at`, in file order (see
/// [`effective_spec`]).
pub fn effective_state(block: &Block, at: (u32, u32, u32)) -> (r: ProvinceStateSnapshot)
    ensures
        snap_view(r) == effective_spec(top_level_spec(block.vview()).0, block.vview(), at, block.vview().len() as int),
{
    proof {
        lemma_items_vview_index(block.items@);
    }
    let ghost items = block.vview();
    let (mut st, _) = top_level_of(block);
    let mut i: usize = 0;
    while i < block.items.len()
        invariant
            i <= block.items@.len(),
            items == block.vview(),
            items.len() == block.items@.len(),
            forall|k: int| 0 <= k < block.items@.len() ==> #[trigger] items[k] == (key_view(block.items@[k].0), block.items@[k].1.vview()),
            snap_view(st) == effective_spec(top_level_spec(items).0, items, at, i as int),
        decreases block.items@.len() - i,
    {
        assert(items[i as int] == (key_view(block.items@[i as int].0), block.items@[i as int].1.vview()));
        match (&block.items[i].0, &block.items[i].1) {
            (Some(k), Value::Block(b)) => {
                match parse_date(k.as_str().as_bytes()) {
                    Some(d) => {
                        if !date_less(at, d) {
                            apply_block(&mut st, b);
                        }
                    },
                    None => {},
                }
            },
            _ => {},
        }
        i = i + 1;
    }
    st
}

// ---------------------------------------------------------------------------
// The province details payload
// ---------------------------------------------------------------------------

/// Everything the province panel shows of one province as of a date.
#[derive(Debug)]
pub struct ProvinceDetails {
    pub id: u32,
    /// Game-relative history file path (existing, else synthesized).
    pub file: String,
    /// Whether the history file exists.
    pub exists: bool,
    /// `PROV<id>` localized, else the definition name, else `Province <id>`.
    pub localized_name: String,
    /// The `map/definition.csv` name (may be empty).
    pub definition_name: String,
    /// The owner in the state as of the date.
    pub owner: Option<String>,
    /// The top level exactly as written.
    pub top_level: ProvinceStateSnapshot,
    /// The top level with every dated block up to the date folded in.
    pub effective_1444: ProvinceStateSnapshot,
    /// Unmodeled top-level statements.
    pub raw_remainder: Vec<RawStatement>,
    /// Every dated block in file order.
    pub dated_blocks: Vec<DatedBlock>,
    pub geography: Geography,
}

/// The localized name of province `id`: `PROV<id>` in the localisation,
/// else the definition name when not empty, else `Province <id>`.
pub open spec fn localized_spec(loc: Seq<(Seq<char>, Seq<char>)>, id: u32, def: Option<Seq<char>>) -> Seq<char> {
    match loc_get(loc, "PROV"@ + decimal(id as nat)) {
        Some(n) => n,
        None => fallback_name(def, id),
    }
}

/// The details of province `id` as of date `at`, from the listed history
/// files `(name, bytes)` (those that could be read), the bytes of
/// `map/definition.csv` (when read), the map files and the localisation.
pub fn province_details_at(
    id: u32,
    histories: &Vec<(String, Vec<u8>)>,
    definition_csv: Option<&[u8]>,
    map: &MapFiles,
    loc: &[(String, String)],
    at: (u32, u32, u32),
) -> (r: ProvinceDetails)
    ensures
        r.id == id,
        ({
            let def = definition_name_spec(bytes_opt(definition_csv), id);
            let h = history_path(histories@.map_values(|f: (String, Vec<u8>)| (f.0@, f.1@)), id, def);
            let items = parse_spec(lossy_utf8(h.1));
            &&& r.file@ == h.0
            &&& r.exists == h.2
            &&& r.definition_name@ == (match def {
                Some(n) => n,
                None => Seq::empty(),
            })
            &&& r.localized_name@ == localized_spec(loc_view(loc@), id, def)
            &&& snap_view(r.top_level) == top_level_spec(items).0
            &&& statements_view(r.raw_remainder@) == top_level_spec(items).1
            &&& snap_view(r.effective_1444) == effective_spec(top_level_spec(items).0, items, at, items.len() as int)
            &&& dated_view(r.dated_blocks@) == dated_spec(items, at, items.len() as int)
        }),
        opt_view(r.owner) == snap_view(r.effective_1444).owner,
        geography_view(r.geography) == geography_spec(*map, loc_view(loc@), id),
{
    let def = definition_name(definition_csv, id);
    let (file, bytes, exists) = history_file(histories, id, &def);
    let text = lossy_string(bytes.as_slice());
    let block = parse(text.as_str());
    let (top_level, raw) = top_level_of(&block);
    assert(statements_view(raw@) == raw@.map_values(|s: RawStatement| statement_view(s)));
    let effective = effective_state(&block, at);
    let dated = dated_blocks_of(&block, at);
    let definition_name = match &def {
        Some(n) => n.clone(),
        None => String::new(),
    };
    let mut key = String::from_str("PROV");
    let digits = usize_to_string(id as usize);
    key.append(digits.as_str());
    proof {
        reveal_strlit("PROV");
    }
    let localized_name = match loc_lookup(loc, &key) {
        Some(n) => n,
        None => fallback_name_exec(&def, id),
    };
    let owner = match &effective.owner {
        Some(o) => Some(o.clone()),
        None => None,
    };
    let geography = geography(map, loc, id);
    ProvinceDetails {
        id,
        file,
        exists,
        localized_name,
        definition_name,
        owner,
        top_level,
        effective_1444: effective,
        raw_remainder: raw,
        dated_blocks: dated,
        geography,
    }
}

/// The details of province `id` at the game's start date, 1444.11.11 (see
/// [`province_details_at`]).
pub fn province_details(
    id: u32,
    histories: &Vec<(String, Vec<u8>)>,
    definition_csv: Option<&[u8]>,
    map: &MapFiles,
    loc: &[(String, String)],
) -> (r: ProvinceDetails)
    ensures
        r.id == id,
        ({
            let def = definition_name_spec(bytes_opt(definition_csv), id);
            let h = history_path(histories@.map_values(|f: (String, Vec<u8>)| (f.0@, f.1@)), id, def);
            let items = parse_spec(lossy_utf8(h.1));
            &&& r.file@ == h.0
            &&& r.exists == h.2
            &&& snap_view(r.top_level) == top_level_spec(items).0
            &&& snap_view(r.effective_1444) == effective_spec(top_level_spec(items).0, items, default_start(), items.len() as int)
            &&& dated_view(r.dated_blocks@) == dated_spec(items, default_start(), items.len() as int)
        }),
{
    province_details_at(id, histories, definition_csv, map, loc, (1444, 11, 11))
}


// ---------------------------------------------------------------------------
// What each modeled key does
// ---------------------------------------------------------------------------

/// Each modeled key writes its own field and nothing else: a text key stores
/// the value, a numeric key stores it when it reads as a number and clears
/// the field otherwise, a flag key reads `yes`/`no` (anything else clears
/// it), the add/remove keys add the value to or take it out of their list,
/// and every other field of the snapshot is left as it was.
pub proof fn lemma_modeled_keys_write_own_field(st: SnapView, v: Seq<char>)
    ensures
        apply_spec(st, "owner"@, VValue::Scalar(v)) == (SnapView { owner: Some(v), ..st }),
        apply_spec(st, "controller"@, VValue::Scalar(v)) == (SnapView { controller: Some(v), ..st }),
        apply_spec(st, "culture"@, VValue::Scalar(v)) == (SnapView { culture: Some(v), ..st }),
        apply_spec(st, "religion"@, VValue::Scalar(v)) == (SnapView { religion: Some(v), ..st }),
        apply_spec(st, "trade_goods"@, VValue::Scalar(v)) == (SnapView { trade_goods: Some(v), ..st }),
        apply_spec(st, "tribal_owner"@, VValue::Scalar(v)) == (SnapView { tribal_owner: Some(v), ..st }),
        apply_spec(st, "reformation_center"@, VValue::Scalar(v)) == (SnapView { reformation_center: Some(v), ..st }),
        apply_spec(st, "capital"@, VValue::Scalar(v)) == (SnapView { capital: Some(v), ..st }),
        apply_spec(st, "add_to_trade_company"@, VValue::Scalar(v)) == (SnapView { trade_company: Some(v), ..st }),
        apply_spec(st, "latent_trade_goods"@, VValue::Scalar(v)) == (SnapView { latent_trade_goods: Some(v), ..st }),
        is_float_text(v) ==> apply_spec(st, "base_tax"@, VValue::Scalar(v)) == (SnapView { base_tax: Some(v), ..st }),
        !is_float_text(v) ==> apply_spec(st, "base_tax"@, VValue::Scalar(v)) == (SnapView { base_tax: None, ..st }),
        is_float_text(v) ==> apply_spec(st, "base_production"@, VValue::Scalar(v)) == (SnapView { base_production: Some(v), ..st }),
        !is_float_text(v) ==> apply_spec(st, "base_production"@, VValue::Scalar(v)) == (SnapView { base_production: None, ..st }),
        is_float_text(v) ==> apply_spec(st, "base_manpower"@, VValue::Scalar(v)) == (SnapView { base_manpower: Some(v), ..st }),
        !is_float_text(v) ==> apply_spec(st, "base_manpower"@, VValue::Scalar(v)) == (SnapView { base_manpower: None, ..st }),
        is_float_text(v) ==> apply_spec(st, "native_size"@, VValue::Scalar(v)) == (SnapView { native_size: Some(v), ..st }),
        !is_float_text(v) ==> apply_spec(st, "native_size"@, VValue::Scalar(v)) == (SnapView { native_size: None, ..st }),
        is_float_text(v) ==> apply_spec(st, "native_ferocity"@, VValue::Scalar(v)) == (SnapView { native_ferocity: Some(v), ..st }),
        !is_float_text(v) ==> apply_spec(st, "native_ferocity"@, VValue::Scalar(v)) == (SnapView { native_ferocity: None, ..st }),
        is_float_text(v) ==> apply_spec(st, "native_hostileness"@, VValue::Scalar(v)) == (SnapView { native_hostileness: Some(v), ..st }),
        !is_float_text(v) ==> apply_spec(st, "native_hostileness"@, VValue::Scalar(v)) == (SnapView { native_hostileness: None, ..st }),
        is_float_text(v) ==> apply_spec(st, "center_of_trade"@, VValue::Scalar(v)) == (SnapView { center_of_trade: Some(v), ..st }),
        !is_float_text(v) ==> apply_spec(st, "center_of_trade"@, VValue::Scalar(v)) == (SnapView { center_of_trade: None, ..st }),
        is_float_text(v) ==> apply_spec(st, "extra_cost"@, VValue::Scalar(v)) == (SnapView { extra_cost: Some(v), ..st }),
        !is_float_text(v) ==> apply_spec(st, "extra_cost"@, VValue::Scalar(v)) == (SnapView { extra_cost: None, ..st }),
        is_float_text(v) ==> apply_spec(st, "add_local_autonomy"@, VValue::Scalar(v)) == (SnapView { local_autonomy: Some(v), ..st }),
        !is_float_text(v) ==> apply_spec(st, "add_local_autonomy"@, VValue::Scalar(v)) == (SnapView { local_autonomy: None, ..st }),
        is_float_text(v) ==> apply_spec(st, "unrest"@, VValue::Scalar(v)) == (SnapView { unrest: Some(v), ..st }),
        !is_float_text(v) ==> apply_spec(st, "unrest"@, VValue::Scalar(v)) == (SnapView { unrest: None, ..st }),
        apply_spec(st, "is_city"@, VValue::Scalar("yes"@)) == (SnapView { is_city: Some(true), ..st }),
        apply_spec(st, "is_city"@, VValue::Scalar("no"@)) == (SnapView { is_city: Some(false), ..st }),
        v != "yes"@ && v != "no"@ ==> apply_spec(st, "is_city"@, VValue::Scalar(v)) == (SnapView { is_city: None, ..st }),
        apply_spec(st, "hre"@, VValue::Scalar("yes"@)) == (SnapView { hre: Some(true), ..st }),
        apply_spec(st, "hre"@, VValue::Scalar("no"@)) == (SnapView { hre: Some(false), ..st }),
        v != "yes"@ && v != "no"@ ==> apply_spec(st, "hre"@, VValue::Scalar(v)) == (SnapView { hre: None, ..st }),
        apply_spec(st, "seat_in_parliament"@, VValue::Scalar("yes"@)) == (SnapView { seat_in_parliament: Some(true), ..st }),
        apply_spec(st, "seat_in_parliament"@, VValue::Scalar("no"@)) == (SnapView { seat_in_parliament: Some(false), ..st }),
        v != "yes"@ && v != "no"@ ==> apply_spec(st, "seat_in_parliament"@, VValue::Scalar(v)) == (SnapView { seat_in_parliament: None, ..st }),
        apply_spec(st, "add_core"@, VValue::Scalar(v)).cores.contains(v),
        forall|x: Seq<char>| st.cores.contains(x) ==> #[trigger] apply_spec(st, "add_core"@, VValue::Scalar(v)).cores.contains(x),
        apply_spec(st, "add_core"@, VValue::Scalar(v)) == (SnapView { cores: apply_spec(st, "add_core"@, VValue::Scalar(v)).cores, ..st }),
        apply_spec(st, "add_claim"@, VValue::Scalar(v)).claims.contains(v),
        forall|x: Seq<char>| st.claims.contains(x) ==> #[trigger] apply_spec(st, "add_claim"@, VValue::Scalar(v)).claims.contains(x),
        apply_spec(st, "add_claim"@, VValue::Scalar(v)) == (SnapView { claims: apply_spec(st, "add_claim"@, VValue::Scalar(v)).claims, ..st }),
        apply_spec(st, "discovered_by"@, VValue::Scalar(v)).discovered_by.contains(v),
        forall|x: Seq<char>| st.discovered_by.contains(x) ==> #[trigger] apply_spec(st, "discovered_by"@, VValue::Scalar(v)).discovered_by.contains(x),
        apply_spec(st, "discovered_by"@, VValue::Scalar(v)) == (SnapView { discovered_by: apply_spec(st, "discovered_by"@, VValue::Scalar(v)).discovered_by, ..st }),
        !apply_spec(st, "remove_core"@, VValue::Scalar(v)).cores.contains(v),
        forall|x: Seq<char>| st.cores.contains(x) && x != v ==> #[trigger] apply_spec(st, "remove_core"@, VValue::Scalar(v)).cores.contains(x),
        apply_spec(st, "remove_core"@, VValue::Scalar(v)) == (SnapView { cores: apply_spec(st, "remove_core"@, VValue::Scalar(v)).cores, ..st }),
        !apply_spec(st, "remove_claim"@, VValue::Scalar(v)).claims.contains(v),
        forall|x: Seq<char>| st.claims.contains(x) && x != v ==> #[trigger] apply_spec(st, "remove_claim"@, VValue::Scalar(v)).claims.contains(x),
        apply_spec(st, "remove_claim"@, VValue::Scalar(v)) == (SnapView { claims: apply_spec(st, "remove_claim"@, VValue::Scalar(v)).claims, ..st }),
{
    lemma_key_owner(st, v);
    lemma_key_controller(st, v);
    lemma_key_culture(st, v);
    lemma_key_religion(st, v);
    lemma_key_trade_goods(st, v);
    lemma_key_tribal_owner(st, v);
    lemma_key_reformation_center(st, v);
    lemma_key_capital(st, v);
    lemma_key_add_to_trade_company(st, v);
    lemma_key_latent_trade_goods(st, v);
    lemma_key_base_tax(st, v);
    lemma_key_base_production(st, v);
    lemma_key_base_manpower(st, v);
    lemma_key_native_size(st, v);
    lemma_key_native_ferocity(st, v);
    lemma_key_native_hostileness(st, v);
    lemma_key_center_of_trade(st, v);
    lemma_key_extra_cost(st, v);
    lemma_key_add_local_autonomy(st, v);
    lemma_key_unrest(st, v);
    lemma_key_is_city(st, v);
    lemma_key_hre(st, v);
    lemma_key_seat_in_parliament(st, v);
    lemma_key_add_core(st, v);
    lemma_key_add_claim(st, v);
    lemma_key_discovered_by(st, v);
    lemma_key_remove_core(st, v);
    lemma_key_remove_claim(st, v);
}

#[verifier::spinoff_prover]
#[verifier::rlimit(50)]
proof fn lemma_key_owner(st: SnapView, v: Seq<char>)
    ensures
        apply_spec(st, "owner"@, VValue::Scalar(v)) == (SnapView { owner: Some(v), ..st }),
{
    reveal_strlit("owner");
    assert("owner"@.len() == 5);
    reveal_strlit("latent_trade_goods");
    assert("latent_trade_goods"@.len() == 18);
    assert("owner"@ != "latent_trade_goods"@);
}

#[verifier::spinoff_prover]
#[verifier::rlimit(50)]
proof fn lemma_key_controller(st: SnapView, v: Seq<char>)
    ensures
        apply_spec(st, "controller"@, VValue::Scalar(v)) == (SnapView { controller: Some(v), ..st }),
{
    reveal_strlit("controller");
    assert("controller"@.len() == 10);
    reveal_strlit("latent_trade_goods");
    assert("latent_trade_goods"@.len() == 18);
    reveal_strlit("owner");
    assert("owner"@.len() == 5);
    assert("controller"@ != "latent_trade_goods"@);
    assert("controller"@ != "owner"@);
}

#[verifier::spinoff_prover]
#[verifier::rlimit(50)]
proof fn lemma_key_culture(st: SnapView, v: Seq<char>)
    ensures
        apply_spec(st, "culture"@, VValue::Scalar(v)) == (SnapView { culture: Some(v), ..st }),
{
    reveal_strlit("culture");
    assert("culture"@.len() == 7);
    reveal_strlit("latent_trade_goods");
    assert("latent_trade_goods"@.len() == 18);
    reveal_strlit("owner");
    assert("owner"@.len() == 5);
    reveal_strlit("controller");
    assert("controller"@.len() == 10);
    assert("culture"@ != "latent_trade_goods"@);
    assert("culture"@ != "owner"@);
    assert("culture"@ != "controller"@);
}

#[verifier::spinoff_prover]
#[verifier::rlimit(50)]
proof fn lemma_key_religion(st: SnapView, v: Seq<char>)
    ensures
        apply_spec(st, "religion"@, VValue::Scalar(v)) == (SnapView { religion: Some(v), ..st }),
{
    reveal_strlit("religion");
    assert("religion"@.len() == 8);
    reveal_strlit("latent_trade_goods");
    assert("latent_trade_goods"@.len() == 18);
    reveal_strlit("owner");
    assert("owner"@.len() == 5);
    reveal_strlit("controller");
    assert("controller"@.len() == 10);
    reveal_strlit("culture");
    assert("culture"@.len() == 7);
    assert("religion"@ != "latent_trade_goods"@);
    assert("religion"@ != "owner"@);
    assert("religion"@ != "controller"@);
    assert("religion"@ != "culture"@);
}

#[verifier::spinoff_prover]
#[verifier::rlimit(50)]
proof fn lemma_key_trade_goods(st: SnapView, v: Seq<char>)
    ensures
        apply_spec(st, "trade_goods"@, VValue::Scalar(v)) == (SnapView { trade_goods: Some(v), ..st }),
{
    reveal_strlit("trade_goods");
    assert("trade_goods"@.len() == 11);
    reveal_strlit("latent_trade_goods");
    assert("latent_trade_goods"@.len() == 18);
    reveal_strlit("owner");
    assert("owner"@.len() == 5);
    reveal_strlit("controller");
    assert("controller"@.len() == 10);
    reveal_strlit("culture");
    assert("culture"@.len() == 7);
    reveal_strlit("religion");
    assert("religion"@.len() == 8);
    assert("trade_goods"@ != "latent_trade_goods"@);
    assert("trade_goods"@ != "owner"@);
    assert("trade_goods"@ != "controller"@);
    assert("trade_goods"@ != "culture"@);
    assert("trade_goods"@ != "religion"@);
}

#[verifier::spinoff_prover]
#[verifier::rlimit(50)]
proof fn lemma_key_tribal_owner(st: SnapView, v: Seq<char>)
    ensures
        apply_spec(st, "tribal_owner"@, VValue::Scalar(v)) == (SnapView { tribal_owner: Some(v), ..st }),
{
    reveal_strlit("tribal_owner");
    assert("tribal_owner"@.len() == 12);
    reveal_strlit("latent_trade_goods");
    assert("latent_trade_goods"@.len() == 18);
    reveal_strlit("owner");
    assert("owner"@.len() == 5);
    reveal_strlit("controller");
    assert("controller"@.len() == 10);
    reveal_strlit("culture");
    assert("culture"@.len() == 7);
    reveal_strlit("religion");
    assert("religion"@.len() == 8);
    reveal_strlit("trade_goods");
    assert("trade_goods"@.len() == 11);
    assert("tribal_owner"@ != "latent_trade_goods"@);
    assert("tribal_owner"@ != "owner"@);
    assert("tribal_owner"@ != "controller"@);
    assert("tribal_owner"@ != "culture"@);
    assert("tribal_owner"@ != "religion"@);
    assert("tribal_owner"@ != "trade_goods"@);
}

#[verifier::spinoff_prover]
#[verifier::rlimit(50)]
proof fn lemma_key_reformation_center(st: SnapView, v: Seq<char>)
    ensures
        apply_spec(st, "reformation_center"@, VValue::Scalar(v)) == (SnapView { reformation_center: Some(v), ..st }),
{
    reveal_strlit("reformation_center");
    assert("reformation_center"@.len() == 18);
    reveal_strlit("latent_trade_goods");
    assert("latent_trade_goods"@.len() == 18);
    reveal_strlit("owner");
    assert("owner"@.len() == 5);
    reveal_strlit("controller");
    assert("controller"@.len() == 10);
    reveal_strlit("culture");
    assert("culture"@.len() == 7);
    reveal_strlit("religion");
    assert("religion"@.len() == 8);
    reveal_strlit("trade_goods");
    assert("trade_goods"@.len() == 11);
    reveal_strlit("tribal_owner");
    assert("tribal_owner"@.len() == 12);
    assert("reformation_center"@[0] == 'r' && "latent_trade_goods"@[0] == 'l');
    assert("reformation_center"@ != "latent_trade_goods"@);
    assert("reformation_center"@ != "owner"@);
    assert("reformation_center"@ != "controller"@);
    assert("reformation_center"@ != "culture"@);
    assert("reformation_center"@ != "religion"@);
    assert("reformation_center"@ != "trade_goods"@);
    assert("reformation_center"@ != "tribal_owner"@);
}

#[verifier::spinoff_prover]
#[verifier::rlimit(50)]
proof fn lemma_key_capital(st: SnapView, v: Seq<char>)
    ensures
        apply_spec(st, "capital"@, VValue::Scalar(v)) == (SnapView { capital: Some(v), ..st }),
{
    reveal_strlit("capital");
    assert("capital"@.len() == 7);
    reveal_strlit("latent_trade_goods");
    assert("latent_trade_goods"@.len() == 18);
    reveal_strlit("owner");
    assert("owner"@.len() == 5);
    reveal_strlit("controller");
    assert("controller"@.len() == 10);
    reveal_strlit("culture");
    assert("culture"@.len() == 7);
    reveal_strlit("religion");
    assert("religion"@.len() == 8);
    reveal_strlit("trade_goods");
    assert("trade_goods"@.len() == 11);
    reveal_strlit("tribal_owner");
    assert("tribal_owner"@.len() == 12);
    reveal_strlit("reformation_center");
    assert("reformation_center"@.len() == 18);
    assert("capital"@ != "latent_trade_goods"@);
    assert("capital"@ != "owner"@);
    assert("capital"@ != "controller"@);
    assert("capital"@[1] == 'a' && "culture"@[1] == 'u');
    assert("capital"@ != "culture"@);
    assert("capital"@ != "religion"@);
    assert("capital"@ != "trade_goods"@);
    assert("capital"@ != "tribal_owner"@);
    assert("capital"@ != "reformation_center"@);
}

#[verifier::spinoff_prover]
#[verifier::rlimit(50)]
proof fn lemma_key_add_to_trade_company(st: SnapView, v: Seq<char>)
    ensures
        apply_spec(st, "add_to_trade_company"@, VValue::Scalar(v)) == (SnapView { trade_company: Some(v), ..st }),
{
    reveal_strlit("add_to_trade_company");
    assert("add_to_trade_company"@.len() == 20);
    reveal_strlit("latent_trade_goods");
    assert("latent_trade_goods"@.len() == 18);
    reveal_strlit("owner");
    assert("owner"@.len() == 5);
    reveal_strlit("controller");
    assert("controller"@.len() == 10);
    reveal_strlit("culture");
    assert("culture"@.len() == 7);
    reveal_strlit("religion");
    assert("religion"@.len() == 8);
    reveal_strlit("trade_goods");
    assert("trade_goods"@.len() == 11);
    reveal_strlit("tribal_owner");
    assert("tribal_owner"@.len() == 12);
    reveal_strlit("reformation_center");
    assert("reformation_center"@.len() == 18);
    reveal_strlit("capital");
    assert("capital"@.len() == 7);
    assert("add_to_trade_company"@ != "latent_trade_goods"@);
    assert("add_to_trade_company"@ != "owner"@);
    assert("add_to_trade_company"@ != "controller"@);
    assert("add_to_trade_company"@ != "culture"@);
    assert("add_to_trade_company"@ != "religion"@);
    assert("add_to_trade_company"@ != "trade_goods"@);
    assert("add_to_trade_company"@ != "tribal_owner"@);
    assert("add_to_trade_company"@ != "reformation_center"@);
    assert("add_to_trade_company"@ != "capital"@);
}

#[verifier::spinoff_prover]
#[verifier::rlimit(50)]
proof fn lemma_key_latent_trade_goods(st: SnapView, v: Seq<char>)
    ensures
        apply_spec(st, "latent_trade_goods"@, VValue::Scalar(v)) == (SnapView { latent_trade_goods: Some(v), ..st }),
{
    reveal_strlit("latent_trade_goods");
    assert("latent_trade_goods"@.len() == 18);
}

#[verifier::spinoff_prover]
#[verifier::rlimit(50)]
proof fn lemma_key_base_tax(st: SnapView, v: Seq<char>)
    ensures
        is_float_text(v) ==> apply_spec(st, "base_tax"@, VValue::Scalar(v)) == (SnapView { base_tax: Some(v), ..st }),
        !is_float_text(v) ==> apply_spec(st, "base_tax"@, VValue::Scalar(v)) == (SnapView { base_tax: None, ..st }),
{
    reveal_strlit("base_tax");
    assert("base_tax"@.len() == 8);
    reveal_strlit("latent_trade_goods");
    assert("latent_trade_goods"@.len() == 18);
    reveal_strlit("owner");
    assert("owner"@.len() == 5);
    reveal_strlit("controller");
    assert("controller"@.len() == 10);
    reveal_strlit("culture");
    assert("culture"@.len() == 7);
    reveal_strlit("religion");
    assert("religion"@.len() == 8);
    reveal_strlit("trade_goods");
    assert("trade_goods"@.len() == 11);
    reveal_strlit("tribal_owner");
    assert("tribal_owner"@.len() == 12);
    reveal_strlit("reformation_center");
    assert("reformation_center"@.len() == 18);
    reveal_strlit("capital");
    assert("capital"@.len() == 7);
    reveal_strlit("add_to_trade_company");
    assert("add_to_trade_company"@.len() == 20);
    assert("base_tax"@ != "latent_trade_goods"@);
    assert("base_tax"@ != "owner"@);
    assert("base_tax"@ != "controller"@);
    assert("base_tax"@ != "culture"@);
    assert("base_tax"@[0] == 'b' && "religion"@[0] == 'r');
    assert("base_tax"@ != "religion"@);
    assert("base_tax"@ != "trade_goods"@);
    assert("base_tax"@ != "tribal_owner"@);
    assert("base_tax"@ != "reformation_center"@);
    assert("base_tax"@ != "capital"@);
    assert("base_tax"@ != "add_to_trade_company"@);
}

#[verifier::spinoff_prover]
#[verifier::rlimit(50)]
proof fn lemma_key_base_production(st: SnapView, v: Seq<char>)
    ensures
        is_float_text(v) ==> apply_spec(st, "base_production"@, VValue::Scalar(v)) == (SnapView { base_production: Some(v), ..st }),
        !is_float_text(v) ==> apply_spec(st, "base_production"@, VValue::Scalar(v)) == (SnapView { base_production: None, ..st }),
{
    reveal_strlit("base_production");
    assert("base_production"@.len() == 15);
    reveal_strlit("latent_trade_goods");
    assert("latent_trade_goods"@.len() == 18);
    reveal_strlit("owner");
    assert("owner"@.len() == 5);
    reveal_strlit("controller");
    assert("controller"@.len() == 10);
    reveal_strlit("culture");
    assert("culture"@.len() == 7);
    reveal_strlit("religion");
    assert("religion"@.len() == 8);
    reveal_strlit("trade_goods");
    assert("trade_goods"@.len() == 11);
    reveal_strlit("tribal_owner");
    assert("tribal_owner"@.len() == 12);
    reveal_strlit("reformation_center");
    assert("reformation_center"@.len() == 18);
    reveal_strlit("capital");
    assert("capital"@.len() == 7);
    reveal_strlit("add_to_trade_company");
    assert("add_to_trade_company"@.len() == 20);
    reveal_strlit("base_tax");
    assert("base_tax"@.len() == 8);
    assert("base_production"@ != "latent_trade_goods"@);
    assert("base_production"@ != "owner"@);
    assert("base_production"@ != "controller"@);
    assert("base_production"@ != "culture"@);
    assert("base_production"@ != "religion"@);
    assert("base_production"@ != "trade_goods"@);
    assert("base_production"@ != "tribal_owner"@);
    assert("base_production"@ != "reformation_center"@);
    assert("base_production"@ != "capital"@);
    assert("base_production"@ != "add_to_trade_company"@);
    assert("base_production"@ != "base_tax"@);
}

#[verifier::spinoff_prover]
#[verifier::rlimit(50)]
proof fn lemma_key_base_manpower(st: SnapView, v: Seq<char>)
    ensures
        is_float_text(v) ==> apply_spec(st, "base_manpower"@, VValue::Scalar(v)) == (SnapView { base_manpower: Some(v), ..st }),
        !is_float_text(v) ==> apply_spec(st, "base_manpower"@, VValue::Scalar(v)) == (SnapView { base_manpower: None, ..st }),
{
    reveal_strlit("base_manpower");
    assert("base_manpower"@.len() == 13);
    reveal_strlit("latent_trade_goods");
    assert("latent_trade_goods"@.len() == 18);
    reveal_strlit("owner");
    assert("owner"@.len() == 5);
    reveal_strlit("controller");
    assert("controller"@.len() == 10);
    reveal_strlit("culture");
    assert("culture"@.len() == 7);
    reveal_strlit("religion");
    assert("religion"@.len() == 8);
    reveal_strlit("trade_goods");
    assert("trade_goods"@.len() == 11);
    reveal_strlit("tribal_owner");
    assert("tribal_owner"@.len() == 12);
    reveal_strlit("reformation_center");
    assert("reformation_center"@.len() == 18);
    reveal_strlit("capital");
    assert("capital"@.len() == 7);
    reveal_strlit("add_to_trade_company");
    assert("add_to_trade_company"@.len() == 20);
    reveal_strlit("base_tax");
    assert("base_tax"@.len() == 8);
    reveal_strlit("base_production");
    assert("base_production"@.len() == 15);
    assert("base_manpower"@ != "latent_trade_goods"@);
    assert("base_manpower"@ != "owner"@);
    assert("base_manpower"@ != "controller"@);
    assert("base_manpower"@ != "culture"@);
    assert("base_manpower"@ != "religion"@);
    assert("base_manpower"@ != "trade_goods"@);
    assert("base_manpower"@ != "tribal_owner"@);
    assert("base_manpower"@ != "reformation_center"@);
    assert("base_manpower"@ != "capital"@);
    assert("base_manpower"@ != "add_to_trade_company"@);
    assert("base_manpower"@ != "base_tax"@);
    assert("base_manpower"@ != "base_production"@);
}

#[verifier::spinoff_prover]
#[verifier::rlimit(50)]
proof fn lemma_key_native_size(st: SnapView, v: Seq<char>)
    ensures
        is_float_text(v) ==> apply_spec(st, "native_size"@, VValue::Scalar(v)) == (SnapView { native_size: Some(v), ..st }),
        !is_float_text(v) ==> apply_spec(st, "native_size"@, VValue::Scalar(v)) == (SnapView { native_size: None, ..st }),
{
    reveal_strlit("native_size");
    assert("native_size"@.len() == 11);
    reveal_strlit("latent_trade_goods");
    assert("latent_trade_goods"@.len() == 18);
    reveal_strlit("owner");
    assert("owner"@.len() == 5);
    reveal_strlit("controller");
    assert("controller"@.len() == 10);
    reveal_strlit("culture");
    assert("culture"@.len() == 7);
    reveal_strlit("religion");
    assert("religion"@.len() == 8);
    reveal_strlit("trade_goods");
    assert("trade_goods"@.len() == 11);
    reveal_strlit("tribal_owner");
    assert("tribal_owner"@.len() == 12);
    reveal_strlit("reformation_center");
    assert("reformation_center"@.len() == 18);
    reveal_strlit("capital");
    assert("capital"@.len() == 7);
    reveal_strlit("add_to_trade_company");
    assert("add_to_trade_company"@.len() == 20);
    reveal_strlit("base_tax");
    assert("base_tax"@.len() == 8);
    reveal_strlit("base_production");
    assert("base_production"@.len() == 15);
    reveal_strlit("base_manpower");
    assert("base_manpower"@.len() == 13);
    assert("native_size"@ != "latent_trade_goods"@);
    assert("native_size"@ != "owner"@);
    assert("native_size"@ != "controller"@);
    assert("native_size"@ != "culture"@);
    assert("native_size"@ != "religion"@);
    assert("native_size"@[0] == 'n' && "trade_goods"@[0] == 't');
    assert("native_size"@ != "trade_goods"@);
    assert("native_size"@ != "tribal_owner"@);
    assert("native_size"@ != "reformation_center"@);
    assert("native_size"@ != "capital"@);
    assert("native_size"@ != "add_to_trade_company"@);
    assert("native_size"@ != "base_tax"@);
    assert("native_size"@ != "base_production"@);
    assert("native_size"@ != "base_manpower"@);
}

#[verifier::spinoff_prover]
#[verifier::rlimit(50)]
proof fn lemma_key_native_ferocity(st: SnapView, v: Seq<char>)
    ensures
        is_float_text(v) ==> apply_spec(st, "native_ferocity"@, VValue::Scalar(v)) == (SnapView { native_ferocity: Some(v), ..st }),
        !is_float_text(v) ==> apply_spec(st, "native_ferocity"@, VValue::Scalar(v)) == (SnapView { native_ferocity: None, ..st }),
{
    reveal_strlit("native_ferocity");
    assert("native_ferocity"@.len() == 15);
    reveal_strlit("latent_trade_goods");
    assert("latent_trade_goods"@.len() == 18);
    reveal_strlit("owner");
    assert("owner"@.len() == 5);
    reveal_strlit("controller");
    assert("controller"@.len() == 10);
    reveal_strlit("culture");
    assert("culture"@.len() == 7);
    reveal_strlit("religion");
    assert("religion"@.len() == 8);
    reveal_strlit("trade_goods");
    assert("trade_goods"@.len() == 11);
    reveal_strlit("tribal_owner");
    assert("tribal_owner"@.len() == 12);
    reveal_strlit("reformation_center");
    assert("reformation_center"@.len() == 18);
    reveal_strlit("capital");
    assert("capital"@.len() == 7);
    reveal_strlit("add_to_trade_company");
    assert("add_to_trade_company"@.len() == 20);
    reveal_strlit("base_tax");
    assert("base_tax"@.len() == 8);
    reveal_strlit("base_production");
    assert("base_production"@.len() == 15);
    reveal_strlit("base_manpower");
    assert("base_manpower"@.len() == 13);
    reveal_strlit("native_size");
    assert("native_size"@.len() == 11);
    assert("native_ferocity"@ != "latent_trade_goods"@);
    assert("native_ferocity"@ != "owner"@);
    assert("native_ferocity"@ != "controller"@);
    assert("native_ferocity"@ != "culture"@);
    assert("native_ferocity"@ != "religion"@);
    assert("native_ferocity"@ != "trade_goods"@);
    assert("native_ferocity"@ != "tribal_owner"@);
    assert("native_ferocity"@ != "reformation_center"@);
    assert("native_ferocity"@ != "capital"@);
    assert("native_ferocity"@ != "add_to_trade_company"@);
    assert("native_ferocity"@ != "base_tax"@);
    assert("native_ferocity"@[0] == 'n' && "base_production"@[0] == 'b');
    assert("native_ferocity"@ != "base_production"@);
    assert("native_ferocity"@ != "base_manpower"@);
    assert("native_ferocity"@ != "native_size"@);
}

#[verifier::spinoff_prover]
#[verifier::rlimit(50)]
proof fn lemma_key_native_hostileness(st: SnapView, v: Seq<char>)
    ensures
        is_float_text(v) ==> apply_spec(st, "native_hostileness"@, VValue::Scalar(v)) == (SnapView { native_hostileness: Some(v), ..st }),
        !is_float_text(v) ==> apply_spec(st, "native_hostileness"@, VValue::Scalar(v)) == (SnapView { native_hostileness: None, ..st }),
{
    reveal_strlit("native_hostileness");
    assert("native_hostileness"@.len() == 18);
    reveal_strlit("latent_trade_goods");
    assert("latent_trade_goods"@.len() == 18);
    reveal_strlit("owner");
    assert("owner"@.len() == 5);
    reveal_strlit("controller");
    assert("controller"@.len() == 10);
    reveal_strlit("culture");
    assert("culture"@.len() == 7);
    reveal_strlit("religion");
    assert("religion"@.len() == 8);
    reveal_strlit("trade_goods");
    assert("trade_goods"@.len() == 11);
    reveal_strlit("tribal_owner");
    assert("tribal_owner"@.len() == 12);
    reveal_strlit("reformation_center");
    assert("reformation_center"@.len() == 18);
    reveal_strlit("capital");
    assert("capital"@.len() == 7);
    reveal_strlit("add_to_trade_company");
    assert("add_to_trade_company"@.len() == 20);
    reveal_strlit("base_tax");
    assert("base_tax"@.len() == 8);
    reveal_strlit("base_production");
    assert("base_production"@.len() == 15);
    reveal_strlit("base_manpower");
    assert("base_manpower"@.len() == 13);
    reveal_strlit("native_size");
    assert("native_size"@.len() == 11);
    reveal_strlit("native_ferocity");
    assert("native_ferocity"@.len() == 15);
    assert("native_hostileness"@[0] == 'n' && "latent_trade_goods"@[0] == 'l');
    assert("native_hostileness"@ != "latent_trade_goods"@);
    assert("native_hostileness"@ != "owner"@);
    assert("native_hostileness"@ != "controller"@);
    assert("native_hostileness"@ != "culture"@);
    assert("native_hostileness"@ != "religion"@);
    assert("native_hostileness"@ != "trade_goods"@);
    assert("native_hostileness"@ != "tribal_owner"@);
    assert("native_hostileness"@[0] == 'n' && "reformation_center"@[0] == 'r');
    assert("native_hostileness"@ != "reformation_center"@);
    assert("native_hostileness"@ != "capital"@);
    assert("native_hostileness"@ != "add_to_trade_company"@);
    assert("native_hostileness"@ != "base_tax"@);
    assert("native_hostileness"@ != "base_production"@);
    assert("native_hostileness"@ != "base_manpower"@);
    assert("native_hostileness"@ != "native_size"@);
    assert("native_hostileness"@ != "native_ferocity"@);
}

#[verifier::spinoff_prover]
#[verifier::rlimit(50)]
proof fn lemma_key_center_of_trade(st: SnapView, v: Seq<char>)
    ensures
        is_float_text(v) ==> apply_spec(st, "center_of_trade"@, VValue::Scalar(v)) == (SnapView { center_of_trade: Some(v), ..st }),
        !is_float_text(v) ==> apply_spec(st, "center_of_trade"@, VValue::Scalar(v)) == (SnapView { center_of_trade: None, ..st }),
{
    reveal_strlit("center_of_trade");
    assert("center_of_trade"@.len() == 15);
    reveal_strlit("latent_trade_goods");
    assert("latent_trade_goods"@.len() == 18);
    reveal_strlit("owner");
    assert("owner"@.len() == 5);
    reveal_strlit("controller");
    assert("controller"@.len() == 10);
    reveal_strlit("culture");
    assert("culture"@.len() == 7);
    reveal_strlit("religion");
    assert("religion"@.len() == 8);
    reveal_strlit("trade_goods");
    assert("trade_goods"@.len() == 11);
    reveal_strlit("tribal_owner");
    assert("tribal_owner"@.len() == 12);
    reveal_strlit("reformation_center");
    assert("reformation_center"@.len() == 18);
    reveal_strlit("capital");
    assert("capital"@.len() == 7);
    reveal_strlit("add_to_trade_company");
    assert("add_to_trade_company"@.len() == 20);
    reveal_strlit("base_tax");
    assert("base_tax"@.len() == 8);
    reveal_strlit("base_production");
    assert("base_production"@.len() == 15);
    reveal_strlit("base_manpower");
    assert("base_manpower"@.len() == 13);
    reveal_strlit("native_size");
    assert("native_size"@.len() == 11);
    reveal_strlit("native_ferocity");
    assert("native_ferocity"@.len() == 15);
    reveal_strlit("native_hostileness");
    assert("native_hostileness"@.len() == 18);
    assert("center_of_trade"@ != "latent_trade_goods"@);
    assert("center_of_trade"@ != "owner"@);
    assert("center_of_trade"@ != "controller"@);
    assert("center_of_trade"@ != "culture"@);
    assert("center_of_trade"@ != "religion"@);
    assert("center_of_trade"@ != "trade_goods"@);
    assert("center_of_trade"@ != "tribal_owner"@);
    assert("center_of_trade"@ != "reformation_center"@);
    assert("center_of_trade"@ != "capital"@);
    assert("center_of_trade"@ != "add_to_trade_company"@);
    assert("center_of_trade"@ != "base_tax"@);
    assert("center_of_trade"@[0] == 'c' && "base_production"@[0] == 'b');
    assert("center_of_trade"@ != "base_production"@);
    assert("center_of_trade"@ != "base_manpower"@);
    assert("center_of_trade"@ != "native_size"@);
    assert("center_of_trade"@[0] == 'c' && "native_ferocity"@[0] == 'n');
    assert("center_of_trade"@ != "native_ferocity"@);
    assert("center_of_trade"@ != "native_hostileness"@);
}

#[verifier::spinoff_prover]
#[verifier::rlimit(50)]
proof fn lemma_key_extra_cost(st: SnapView, v: Seq<char>)
    ensures
        is_float_text(v) ==> apply_spec(st, "extra_cost"@, VValue::Scalar(v)) == (SnapView { extra_cost: Some(v), ..st }),
        !is_float_text(v) ==> apply_spec(st, "extra_cost"@, VValue::Scalar(v)) == (SnapView { extra_cost: None, ..st }),
{
    reveal_strlit("extra_cost");
    assert("extra_cost"@.len() == 10);
    reveal_strlit("latent_trade_goods");
    assert("latent_trade_goods"@.len() == 18);
    reveal_strlit("owner");
    assert("owner"@.len() == 5);
    reveal_strlit("controller");
    assert("controller"@.len() == 10);
    reveal_strlit("culture");
    assert("culture"@.len() == 7);
    reveal_strlit("religion");
    assert("religion"@.len() == 8);
    reveal_strlit("trade_goods");
    assert("trade_goods"@.len() == 11);
    reveal_strlit("tribal_owner");
    assert("tribal_owner"@.len() == 12);
    reveal_strlit("reformation_center");
    assert("reformation_center"@.len() == 18);
    reveal_strlit("capital");
    assert("capital"@.len() == 7);
    reveal_strlit("add_to_trade_company");
    assert("add_to_trade_company"@.len() == 20);
    reveal_strlit("base_tax");
    assert("base_tax"@.len() == 8);
    reveal_strlit("base_production");
    assert("base_production"@.len() == 15);
    reveal_strlit("base_manpower");
    assert("base_manpower"@.len() == 13);
    reveal_strlit("native_size");
    assert("native_size"@.len() == 11);
    reveal_strlit("native_ferocity");
    assert("native_ferocity"@.len() == 15);
    reveal_strlit("native_hostileness");
    assert("native_hostileness"@.len() == 18);
    reveal_strlit("center_of_trade");
    assert("center_of_trade"@.len() == 15);
    assert("extra_cost"@ != "latent_trade_goods"@);
    assert("extra_cost"@ != "owner"@);
    assert("extra_cost"@[0] == 'e' && "controller"@[0] == 'c');
    assert("extra_cost"@ != "controller"@);
    assert("extra_cost"@ != "culture"@);
    assert("extra_cost"@ != "religion"@);
    assert("extra_cost"@ != "trade_goods"@);
    assert("extra_cost"@ != "tribal_owner"@);
    assert("extra_cost"@ != "reformation_center"@);
    assert("extra_cost"@ != "capital"@);
    assert("extra_cost"@ != "add_to_trade_company"@);
    assert("extra_cost"@ != "base_tax"@);
    assert("extra_cost"@ != "base_production"@);
    assert("extra_cost"@ != "base_manpower"@);
    assert("extra_cost"@ != "native_size"@);
    assert("extra_cost"@ != "native_ferocity"@);
    assert("extra_cost"@ != "native_hostileness"@);
    assert("extra_cost"@ != "center_of_trade"@);
}

#[verifier::spinoff_prover]
#[verifier::rlimit(50)]
proof fn lemma_key_add_local_autonomy(st: SnapView, v: Seq<char>)
    ensures
        is_float_text(v) ==> apply_spec(st, "add_local_autonomy"@, VValue::Scalar(v)) == (SnapView { local_autonomy: Some(v), ..st }),
        !is_float_text(v) ==> apply_spec(st, "add_local_autonomy"@, VValue::Scalar(v)) == (SnapView { local_autonomy: None, ..st }),
{
    reveal_strlit("add_local_autonomy");
    assert("add_local_autonomy"@.len() == 18);
    reveal_strlit("latent_trade_goods");
    assert("latent_trade_goods"@.len() == 18);
    reveal_strlit("owner");
    assert("owner"@.len() == 5);
    reveal_strlit("controller");
    assert("controller"@.len() == 10);
    reveal_strlit("culture");
    assert("culture"@.len() == 7);
    reveal_strlit("religion");
    assert("religion"@.len() == 8);
    reveal_strlit("trade_goods");
    assert("trade_goods"@.len() == 11);
    reveal_strlit("tribal_owner");
    assert("tribal_owner"@.len() == 12);
    reveal_strlit("reformation_center");
    assert("reformation_center"@.len() == 18);
    reveal_strlit("capital");
    assert("capital"@.len() == 7);
    reveal_strlit("add_to_trade_company");
    assert("add_to_trade_company"@.len() == 20);
    reveal_strlit("base_tax");
    assert("base_tax"@.len() == 8);
    reveal_strlit("base_production");
    assert("base_production"@.len() == 15);
    reveal_strlit("base_manpower");
    assert("base_manpower"@.len() == 13);
    reveal_strlit("native_size");
    assert("native_size"@.len() == 11);
    reveal_strlit("native_ferocity");
    assert("native_ferocity"@.len() == 15);
    reveal_strlit("native_hostileness");
    assert("native_hostileness"@.len() == 18);
    reveal_strlit("center_of_trade");
    assert("center_of_trade"@.len() == 15);
    reveal_strlit("extra_cost");
    assert("extra_cost"@.len() == 10);
    assert("add_local_autonomy"@[0] == 'a' && "latent_trade_goods"@[0] == 'l');
    assert("add_local_autonomy"@ != "latent_trade_goods"@);
    assert("add_local_autonomy"@ != "owner"@);
    assert("add_local_autonomy"@ != "controller"@);
    assert("add_local_autonomy"@ != "culture"@);
    assert("add_local_autonomy"@ != "religion"@);
    assert("add_local_autonomy"@ != "trade_goods"@);
    assert("add_local_autonomy"@ != "tribal_owner"@);
    assert("add_local_autonomy"@[0] == 'a' && "reformation_center"@[0] == 'r');
    assert("add_local_autonomy"@ != "reformation_center"@);
    assert("add_local_autonomy"@ != "capital"@);
    assert("add_local_autonomy"@ != "add_to_trade_company"@);
    assert("add_local_autonomy"@ != "base_tax"@);
    assert("add_local_autonomy"@ != "base_production"@);
    assert("add_local_autonomy"@ != "base_manpower"@);
    assert("add_local_autonomy"@ != "native_size"@);
    assert("add_local_autonomy"@ != "native_ferocity"@);
    assert("add_local_autonomy"@[0] == 'a' && "native_hostileness"@[0] == 'n');
    assert("add_local_autonomy"@ != "native_hostileness"@);
    assert("add_local_autonomy"@ != "center_of_trade"@);
    assert("add_local_autonomy"@ != "extra_cost"@);
}

#[verifier::spinoff_prover]
#[verifier::rlimit(50)]
proof fn lemma_key_unrest(st: SnapView, v: Seq<char>)
    ensures
        is_float_text(v) ==> apply_spec(st, "unrest"@, VValue::Scalar(v)) == (SnapView { unrest: Some(v), ..st }),
        !is_float_text(v) ==> apply_spec(st, "unrest"@, VValue::Scalar(v)) == (SnapView { unrest: None, ..st }),
{
    reveal_strlit("unrest");
    assert("unrest"@.len() == 6);
    reveal_strlit("latent_trade_goods");
    assert("latent_trade_goods"@.len() == 18);
    reveal_strlit("owner");
    assert("owner"@.len() == 5);
    reveal_strlit("controller");
    assert("controller"@.len() == 10);
    reveal_strlit("culture");
    assert("culture"@.len() == 7);
    reveal_strlit("religion");
    assert("religion"@.len() == 8);
    reveal_strlit("trade_goods");
    assert("trade_goods"@.len() == 11);
    reveal_strlit("tribal_owner");
    assert("tribal_owner"@.len() == 12);
    reveal_strlit("reformation_center");
    assert("reformation_center"@.len() == 18);
    reveal_strlit("capital");
    assert("capital"@.len() == 7);
    reveal_strlit("add_to_trade_company");
    assert("add_to_trade_company"@.len() == 20);
    reveal_strlit("base_tax");
    assert("base_tax"@.len() == 8);
    reveal_strlit("base_production");
    assert("base_production"@.len() == 15);
    reveal_strlit("base_manpower");
    assert("base_manpower"@.len() == 13);
    reveal_strlit("native_size");
    assert("native_size"@.len() == 11);
    reveal_strlit("native_ferocity");
    assert("native_ferocity"@.len() == 15);
    reveal_strlit("native_hostileness");
    assert("native_hostileness"@.len() == 18);
    reveal_strlit("center_of_trade");
    assert("center_of_trade"@.len() == 15);
    reveal_strlit("extra_cost");
    assert("extra_cost"@.len() == 10);
    reveal_strlit("add_local_autonomy");
    assert("add_local_autonomy"@.len() == 18);
    assert("unrest"@ != "latent_trade_goods"@);
    assert("unrest"@ != "owner"@);
    assert("unrest"@ != "controller"@);
    assert("unrest"@ != "culture"@);
    assert("unrest"@ != "religion"@);
    assert("unrest"@ != "trade_goods"@);
    assert("unrest"@ != "tribal_owner"@);
    assert("unrest"@ != "reformation_center"@);
    assert("unrest"@ != "capital"@);
    assert("unrest"@ != "add_to_trade_company"@);
    assert("unrest"@ != "base_tax"@);
    assert("unrest"@ != "base_production"@);
    assert("unrest"@ != "base_manpower"@);
    assert("unrest"@ != "native_size"@);
    assert("unrest"@ != "native_ferocity"@);
    assert("unrest"@ != "native_hostileness"@);
    assert("unrest"@ != "center_of_trade"@);
    assert("unrest"@ != "extra_cost"@);
    assert("unrest"@ != "add_local_autonomy"@);
}

#[verifier::spinoff_prover]
#[verifier::rlimit(50)]
proof fn lemma_key_is_city(st: SnapView, v: Seq<char>)
    ensures
        apply_spec(st, "is_city"@, VValue::Scalar("yes"@)) == (SnapView { is_city: Some(true), ..st }),
        apply_spec(st, "is_city"@, VValue::Scalar("no"@)) == (SnapView { is_city: Some(false), ..st }),
        v != "yes"@ && v != "no"@ ==> apply_spec(st, "is_city"@, VValue::Scalar(v)) == (SnapView { is_city: None, ..st }),
{
    reveal_strlit("is_city");
    assert("is_city"@.len() == 7);
    reveal_strlit("latent_trade_goods");
    assert("latent_trade_goods"@.len() == 18);
    reveal_strlit("owner");
    assert("owner"@.len() == 5);
    reveal_strlit("controller");
    assert("controller"@.len() == 10);
    reveal_strlit("culture");
    assert("culture"@.len() == 7);
    reveal_strlit("religion");
    assert("religion"@.len() == 8);
    reveal_strlit("trade_goods");
    assert("trade_goods"@.len() == 11);
    reveal_strlit("tribal_owner");
    assert("tribal_owner"@.len() == 12);
    reveal_strlit("reformation_center");
    assert("reformation_center"@.len() == 18);
    reveal_strlit("capital");
    assert("capital"@.len() == 7);
    reveal_strlit("add_to_trade_company");
    assert("add_to_trade_company"@.len() == 20);
    reveal_strlit("base_tax");
    assert("base_tax"@.len() == 8);
    reveal_strlit("base_production");
    assert("base_production"@.len() == 15);
    reveal_strlit("base_manpower");
    assert("base_manpower"@.len() == 13);
    reveal_strlit("native_size");
    assert("native_size"@.len() == 11);
    reveal_strlit("native_ferocity");
    assert("native_ferocity"@.len() == 15);
    reveal_strlit("native_hostileness");
    assert("native_hostileness"@.len() == 18);
    reveal_strlit("center_of_trade");
    assert("center_of_trade"@.len() == 15);
    reveal_strlit("extra_cost");
    assert("extra_cost"@.len() == 10);
    reveal_strlit("add_local_autonomy");
    assert("add_local_autonomy"@.len() == 18);
    reveal_strlit("unrest");
    assert("unrest"@.len() == 6);
    assert("is_city"@ != "latent_trade_goods"@);
    assert("is_city"@ != "owner"@);
    assert("is_city"@ != "controller"@);
    assert("is_city"@[0] == 'i' && "culture"@[0] == 'c');
    assert("is_city"@ != "culture"@);
    assert("is_city"@ != "religion"@);
    assert("is_city"@ != "trade_goods"@);
    assert("is_city"@ != "tribal_owner"@);
    assert("is_city"@ != "reformation_center"@);
    assert("is_city"@[0] == 'i' && "capital"@[0] == 'c');
    assert("is_city"@ != "capital"@);
    assert("is_city"@ != "add_to_trade_company"@);
    assert("is_city"@ != "base_tax"@);
    assert("is_city"@ != "base_production"@);
    assert("is_city"@ != "base_manpower"@);
    assert("is_city"@ != "native_size"@);
    assert("is_city"@ != "native_ferocity"@);
    assert("is_city"@ != "native_hostileness"@);
    assert("is_city"@ != "center_of_trade"@);
    assert("is_city"@ != "extra_cost"@);
    assert("is_city"@ != "add_local_autonomy"@);
    assert("is_city"@ != "unrest"@);
    reveal_strlit("yes");
    assert("yes"@.len() == 3);
    reveal_strlit("no");
    assert("no"@.len() == 2);
    assert("yes"@ != "no"@);
}

#[verifier::spinoff_prover]
#[verifier::rlimit(50)]
proof fn lemma_key_hre(st: SnapView, v: Seq<char>)
    ensures
        apply_spec(st, "hre"@, VValue::Scalar("yes"@)) == (SnapView { hre: Some(true), ..st }),
        apply_spec(st, "hre"@, VValue::Scalar("no"@)) == (SnapView { hre: Some(false), ..st }),
        v != "yes"@ && v != "no"@ ==> apply_spec(st, "hre"@, VValue::Scalar(v)) == (SnapView { hre: None, ..st }),
{
    reveal_strlit("hre");
    assert("hre"@.len() == 3);
    reveal_strlit("latent_trade_goods");
    assert("latent_trade_goods"@.len() == 18);
    reveal_strlit("owner");
    assert("owner"@.len() == 5);
    reveal_strlit("controller");
    assert("controller"@.len() == 10);
    reveal_strlit("culture");
    assert("culture"@.len() == 7);
    reveal_strlit("religion");
    assert("religion"@.len() == 8);
    reveal_strlit("trade_goods");
    assert("trade_goods"@.len() == 11);
    reveal_strlit("tribal_owner");
    assert("tribal_owner"@.len() == 12);
    reveal_strlit("reformation_center");
    assert("reformation_center"@.len() == 18);
    reveal_strlit("capital");
    assert("capital"@.len() == 7);
    reveal_strlit("add_to_trade_company");
    assert("add_to_trade_company"@.len() == 20);
    reveal_strlit("base_tax");
    assert("base_tax"@.len() == 8);
    reveal_strlit("base_production");
    assert("base_production"@.len() == 15);
    reveal_strlit("base_manpower");
    assert("base_manpower"@.len() == 13);
    reveal_strlit("native_size");
    assert("native_size"@.len() == 11);
    reveal_strlit("native_ferocity");
    assert("native_ferocity"@.len() == 15);
    reveal_strlit("native_hostileness");
    assert("native_hostileness"@.len() == 18);
    reveal_strlit("center_of_trade");
    assert("center_of_trade"@.len() == 15);
    reveal_strlit("extra_cost");
    assert("extra_cost"@.len() == 10);
    reveal_strlit("add_local_autonomy");
    assert("add_local_autonomy"@.len() == 18);
    reveal_strlit("unrest");
    assert("unrest"@.len() == 6);
    reveal_strlit("is_city");
    assert("is_city"@.len() == 7);
    assert("hre"@ != "latent_trade_goods"@);
    assert("hre"@ != "owner"@);
    assert("hre"@ != "controller"@);
    assert("hre"@ != "culture"@);
    assert("hre"@ != "religion"@);
    assert("hre"@ != "trade_goods"@);
    assert("hre"@ != "tribal_owner"@);
    assert("hre"@ != "reformation_center"@);
    assert("hre"@ != "capital"@);
    assert("hre"@ != "add_to_trade_company"@);
    assert("hre"@ != "base_tax"@);
    assert("hre"@ != "base_production"@);
    assert("hre"@ != "base_manpower"@);
    assert("hre"@ != "native_size"@);
    assert("hre"@ != "native_ferocity"@);
    assert("hre"@ != "native_hostileness"@);
    assert("hre"@ != "center_of_trade"@);
    assert("hre"@ != "extra_cost"@);
    assert("hre"@ != "add_local_autonomy"@);
    assert("hre"@ != "unrest"@);
    assert("hre"@ != "is_city"@);
    reveal_strlit("yes");
    assert("yes"@.len() == 3);
    reveal_strlit("no");
    assert("no"@.len() == 2);
    assert("yes"@ != "no"@);
}

#[verifier::spinoff_prover]
#[verifier::rlimit(50)]
proof fn lemma_key_seat_in_parliament(st: SnapView, v: Seq<char>)
    ensures
        apply_spec(st, "seat_in_parliament"@, VValue::Scalar("yes"@)) == (SnapView { seat_in_parliament: Some(true), ..st }),
        apply_spec(st, "seat_in_parliament"@, VValue::Scalar("no"@)) == (SnapView { seat_in_parliament: Some(false), ..st }),
        v != "yes"@ && v != "no"@ ==> apply_spec(st, "seat_in_parliament"@, VValue::Scalar(v)) == (SnapView { seat_in_parliament: None, ..st }),
{
    reveal_strlit("seat_in_parliament");
    assert("seat_in_parliament"@.len() == 18);
    reveal_strlit("latent_trade_goods");
    assert("latent_trade_goods"@.len() == 18);
    reveal_strlit("owner");
    assert("owner"@.len() == 5);
    reveal_strlit("controller");
    assert("controller"@.len() == 10);
    reveal_strlit("culture");
    assert("culture"@.len() == 7);
    reveal_strlit("religion");
    assert("religion"@.len() == 8);
    reveal_strlit("trade_goods");
    assert("trade_goods"@.len() == 11);
    reveal_strlit("tribal_owner");
    assert("tribal_owner"@.len() == 12);
    reveal_strlit("reformation_center");
    assert("reformation_center"@.len() == 18);
    reveal_strlit("capital");
    assert("capital"@.len() == 7);
    reveal_strlit("add_to_trade_company");
    assert("add_to_trade_company"@.len() == 20);
    reveal_strlit("base_tax");
    assert("base_tax"@.len() == 8);
    reveal_strlit("base_production");
    assert("base_production"@.len() == 15);
    reveal_strlit("base_manpower");
    assert("base_manpower"@.len() == 13);
    reveal_strlit("native_size");
    assert("native_size"@.len() == 11);
    reveal_strlit("native_ferocity");
    assert("native_ferocity"@.len() == 15);
    reveal_strlit("native_hostileness");
    assert("native_hostileness"@.len() == 18);
    reveal_strlit("center_of_trade");
    assert("center_of_trade"@.len() == 15);
    reveal_strlit("extra_cost");
    assert("extra_cost"@.len() == 10);
    reveal_strlit("add_local_autonomy");
    assert("add_local_autonomy"@.len() == 18);
    reveal_strlit("unrest");
    assert("unrest"@.len() == 6);
    reveal_strlit("is_city");
    assert("is_city"@.len() == 7);
    reveal_strlit("hre");
    assert("hre"@.len() == 3);
    assert("seat_in_parliament"@[0] == 's' && "latent_trade_goods"@[0] == 'l');
    assert("seat_in_parliament"@ != "latent_trade_goods"@);
    assert("seat_in_parliament"@ != "owner"@);
    assert("seat_in_parliament"@ != "controller"@);
    assert("seat_in_parliament"@ != "culture"@);
    assert("seat_in_parliament"@ != "religion"@);
    assert("seat_in_parliament"@ != "trade_goods"@);
    assert("seat_in_parliament"@ != "tribal_owner"@);
    assert("seat_in_parliament"@[0] == 's' && "reformation_center"@[0] == 'r');
    assert("seat_in_parliament"@ != "reformation_center"@);
    assert("seat_in_parliament"@ != "capital"@);
    assert("seat_in_parliament"@ != "add_to_trade_company"@);
    assert("seat_in_parliament"@ != "base_tax"@);
    assert("seat_in_parliament"@ != "base_production"@);
    assert("seat_in_parliament"@ != "base_manpower"@);
    assert("seat_in_parliament"@ != "native_size"@);
    assert("seat_in_parliament"@ != "native_ferocity"@);
    assert("seat_in_parliament"@[0] == 's' && "native_hostileness"@[0] == 'n');
    assert("seat_in_parliament"@ != "native_hostileness"@);
    assert("seat_in_parliament"@ != "center_of_trade"@);
    assert("seat_in_parliament"@ != "extra_cost"@);
    assert("seat_in_parliament"@[0] == 's' && "add_local_autonomy"@[0] == 'a');
    assert("seat_in_parliament"@ != "add_local_autonomy"@);
    assert("seat_in_parliament"@ != "unrest"@);
    assert("seat_in_parliament"@ != "is_city"@);
    assert("seat_in_parliament"@ != "hre"@);
    reveal_strlit("yes");
    assert("yes"@.len() == 3);
    reveal_strlit("no");
    assert("no"@.len() == 2);
    assert("yes"@ != "no"@);
}

#[verifier::spinoff_prover]
#[verifier::rlimit(50)]
proof fn lemma_key_add_core(st: SnapView, v: Seq<char>)
    ensures
        apply_spec(st, "add_core"@, VValue::Scalar(v)).cores.contains(v),
        forall|x: Seq<char>| st.cores.contains(x) ==> #[trigger] apply_spec(st, "add_core"@, VValue::Scalar(v)).cores.contains(x),
        apply_spec(st, "add_core"@, VValue::Scalar(v)) == (SnapView { cores: apply_spec(st, "add_core"@, VValue::Scalar(v)).cores, ..st }),
{
    reveal_strlit("add_core");
    assert("add_core"@.len() == 8);
    reveal_strlit("latent_trade_goods");
    assert("latent_trade_goods"@.len() == 18);
    reveal_strlit("owner");
    assert("owner"@.len() == 5);
    reveal_strlit("controller");
    assert("controller"@.len() == 10);
    reveal_strlit("culture");
    assert("culture"@.len() == 7);
    reveal_strlit("religion");
    assert("religion"@.len() == 8);
    reveal_strlit("trade_goods");
    assert("trade_goods"@.len() == 11);
    reveal_strlit("tribal_owner");
    assert("tribal_owner"@.len() == 12);
    reveal_strlit("reformation_center");
    assert("reformation_center"@.len() == 18);
    reveal_strlit("capital");
    assert("capital"@.len() == 7);
    reveal_strlit("add_to_trade_company");
    assert("add_to_trade_company"@.len() == 20);
    reveal_strlit("base_tax");
    assert("base_tax"@.len() == 8);
    reveal_strlit("base_production");
    assert("base_production"@.len() == 15);
    reveal_strlit("base_manpower");
    assert("base_manpower"@.len() == 13);
    reveal_strlit("native_size");
    assert("native_size"@.len() == 11);
    reveal_strlit("native_ferocity");
    assert("native_ferocity"@.len() == 15);
    reveal_strlit("native_hostileness");
    assert("native_hostileness"@.len() == 18);
    reveal_strlit("center_of_trade");
    assert("center_of_trade"@.len() == 15);
    reveal_strlit("extra_cost");
    assert("extra_cost"@.len() == 10);
    reveal_strlit("add_local_autonomy");
    assert("add_local_autonomy"@.len() == 18);
    reveal_strlit("unrest");
    assert("unrest"@.len() == 6);
    reveal_strlit("is_city");
    assert("is_city"@.len() == 7);
    reveal_strlit("hre");
    assert("hre"@.len() == 3);
    reveal_strlit("seat_in_parliament");
    assert("seat_in_parliament"@.len() == 18);
    assert("add_core"@ != "latent_trade_goods"@);
    assert("add_core"@ != "owner"@);
    assert("add_core"@ != "controller"@);
    assert("add_core"@ != "culture"@);
    assert("add_core"@[0] == 'a' && "religion"@[0] == 'r');
    assert("add_core"@ != "religion"@);
    assert("add_core"@ != "trade_goods"@);
    assert("add_core"@ != "tribal_owner"@);
    assert("add_core"@ != "reformation_center"@);
    assert("add_core"@ != "capital"@);
    assert("add_core"@ != "add_to_trade_company"@);
    assert("add_core"@[0] == 'a' && "base_tax"@[0] == 'b');
    assert("add_core"@ != "base_tax"@);
    assert("add_core"@ != "base_production"@);
    assert("add_core"@ != "base_manpower"@);
    assert("add_core"@ != "native_size"@);
    assert("add_core"@ != "native_ferocity"@);
    assert("add_core"@ != "native_hostileness"@);
    assert("add_core"@ != "center_of_trade"@);
    assert("add_core"@ != "extra_cost"@);
    assert("add_core"@ != "add_local_autonomy"@);
    assert("add_core"@ != "unrest"@);
    assert("add_core"@ != "is_city"@);
    assert("add_core"@ != "hre"@);
    assert("add_core"@ != "seat_in_parliament"@);
    lemma_add_unique(st.cores, v);
    lemma_without(st.cores, v);
}

#[verifier::spinoff_prover]
#[verifier::rlimit(50)]
proof fn lemma_key_add_claim(st: SnapView, v: Seq<char>)
    ensures
        apply_spec(st, "add_claim"@, VValue::Scalar(v)).claims.contains(v),
        forall|x: Seq<char>| st.claims.contains(x) ==> #[trigger] apply_spec(st, "add_claim"@, VValue::Scalar(v)).claims.contains(x),
        apply_spec(st, "add_claim"@, VValue::Scalar(v)) == (SnapView { claims: apply_spec(st, "add_claim"@, VValue::Scalar(v)).claims, ..st }),
{
    reveal_strlit("add_claim");
    assert("add_claim"@.len() == 9);
    reveal_strlit("latent_trade_goods");
    assert("latent_trade_goods"@.len() == 18);
    reveal_strlit("owner");
    assert("owner"@.len() == 5);
    reveal_strlit("controller");
    assert("controller"@.len() == 10);
    reveal_strlit("culture");
    assert("culture"@.len() == 7);
    reveal_strlit("religion");
    assert("religion"@.len() == 8);
    reveal_strlit("trade_goods");
    assert("trade_goods"@.len() == 11);
    reveal_strlit("tribal_owner");
    assert("tribal_owner"@.len() == 12);
    reveal_strlit("reformation_center");
    assert("reformation_center"@.len() == 18);
    reveal_strlit("capital");
    assert("capital"@.len() == 7);
    reveal_strlit("add_to_trade_company");
    assert("add_to_trade_company"@.len() == 20);
    reveal_strlit("base_tax");
    assert("base_tax"@.len() == 8);
    reveal_strlit("base_production");
    assert("base_production"@.len() == 15);
    reveal_strlit("base_manpower");
    assert("base_manpower"@.len() == 13);
    reveal_strlit("native_size");
    assert("native_size"@.len() == 11);
    reveal_strlit("native_ferocity");
    assert("native_ferocity"@.len() == 15);
    reveal_strlit("native_hostileness");
    assert("native_hostileness"@.len() == 18);
    reveal_strlit("center_of_trade");
    assert("center_of_trade"@.len() == 15);
    reveal_strlit("extra_cost");
    assert("extra_cost"@.len() == 10);
    reveal_strlit("add_local_autonomy");
    assert("add_local_autonomy"@.len() == 18);
    reveal_strlit("unrest");
    assert("unrest"@.len() == 6);
    reveal_strlit("is_city");
    assert("is_city"@.len() == 7);
    reveal_strlit("hre");
    assert("hre"@.len() == 3);
    reveal_strlit("seat_in_parliament");
    assert("seat_in_parliament"@.len() == 18);
    reveal_strlit("add_core");
    assert("add_core"@.len() == 8);
    reveal_strlit("remove_core");
    assert("remove_core"@.len() == 11);
    assert("add_claim"@ != "latent_trade_goods"@);
    assert("add_claim"@ != "owner"@);
    assert("add_claim"@ != "controller"@);
    assert("add_claim"@ != "culture"@);
    assert("add_claim"@ != "religion"@);
    assert("add_claim"@ != "trade_goods"@);
    assert("add_claim"@ != "tribal_owner"@);
    assert("add_claim"@ != "reformation_center"@);
    assert("add_claim"@ != "capital"@);
    assert("add_claim"@ != "add_to_trade_company"@);
    assert("add_claim"@ != "base_tax"@);
    assert("add_claim"@ != "base_production"@);
    assert("add_claim"@ != "base_manpower"@);
    assert("add_claim"@ != "native_size"@);
    assert("add_claim"@ != "native_ferocity"@);
    assert("add_claim"@ != "native_hostileness"@);
    assert("add_claim"@ != "center_of_trade"@);
    assert("add_claim"@ != "extra_cost"@);
    assert("add_claim"@ != "add_local_autonomy"@);
    assert("add_claim"@ != "unrest"@);
    assert("add_claim"@ != "is_city"@);
    assert("add_claim"@ != "hre"@);
    assert("add_claim"@ != "seat_in_parliament"@);
    assert("add_claim"@ != "add_core"@);
    assert("add_claim"@ != "remove_core"@);
    lemma_add_unique(st.claims, v);
    lemma_without(st.claims, v);
}

#[verifier::spinoff_prover]
#[verifier::rlimit(50)]
proof fn lemma_key_discovered_by(st: SnapView, v: Seq<char>)
    ensures
        apply_spec(st, "discovered_by"@, VValue::Scalar(v)).discovered_by.contains(v),
        forall|x: Seq<char>| st.discovered_by.contains(x) ==> #[trigger] apply_spec(st, "discovered_by"@, VValue::Scalar(v)).discovered_by.contains(x),
        apply_spec(st, "discovered_by"@, VValue::Scalar(v)) == (SnapView { discovered_by: apply_spec(st, "discovered_by"@, VValue::Scalar(v)).discovered_by, ..st }),
{
    reveal_strlit("discovered_by");
    assert("discovered_by"@.len() == 13);
    reveal_strlit("latent_trade_goods");
    assert("latent_trade_goods"@.len() == 18);
    reveal_strlit("owner");
    assert("owner"@.len() == 5);
    reveal_strlit("controller");
    assert("controller"@.len() == 10);
    reveal_strlit("culture");
    assert("culture"@.len() == 7);
    reveal_strlit("religion");
    assert("religion"@.len() == 8);
    reveal_strlit("trade_goods");
    assert("trade_goods"@.len() == 11);
    reveal_strlit("tribal_owner");
    assert("tribal_owner"@.len() == 12);
    reveal_strlit("reformation_center");
    assert("reformation_center"@.len() == 18);
    reveal_strlit("capital");
    assert("capital"@.len() == 7);
    reveal_strlit("add_to_trade_company");
    assert("add_to_trade_company"@.len() == 20);
    reveal_strlit("base_tax");
    assert("base_tax"@.len() == 8);
    reveal_strlit("base_production");
    assert("base_production"@.len() == 15);
    reveal_strlit("base_manpower");
    assert("base_manpower"@.len() == 13);
    reveal_strlit("native_size");
    assert("native_size"@.len() == 11);
    reveal_strlit("native_ferocity");
    assert("native_ferocity"@.len() == 15);
    reveal_strlit("native_hostileness");
    assert("native_hostileness"@.len() == 18);
    reveal_strlit("center_of_trade");
    assert("center_of_trade"@.len() == 15);
    reveal_strlit("extra_cost");
    assert("extra_cost"@.len() == 10);
    reveal_strlit("add_local_autonomy");
    assert("add_local_autonomy"@.len() == 18);
    reveal_strlit("unrest");
    assert("unrest"@.len() == 6);
    reveal_strlit("is_city");
    assert("is_city"@.len() == 7);
    reveal_strlit("hre");
    assert("hre"@.len() == 3);
    reveal_strlit("seat_in_parliament");
    assert("seat_in_parliament"@.len() == 18);
    reveal_strlit("add_core");
    assert("add_core"@.len() == 8);
    reveal_strlit("remove_core");
    assert("remove_core"@.len() == 11);
    reveal_strlit("add_claim");
    assert("add_claim"@.len() == 9);
    reveal_strlit("remove_claim");
    assert("remove_claim"@.len() == 12);
    assert("discovered_by"@ != "latent_trade_goods"@);
    assert("discovered_by"@ != "owner"@);
    assert("discovered_by"@ != "controller"@);
    assert("discovered_by"@ != "culture"@);
    assert("discovered_by"@ != "religion"@);
    assert("discovered_by"@ != "trade_goods"@);
    assert("discovered_by"@ != "tribal_owner"@);
    assert("discovered_by"@ != "reformation_center"@);
    assert("discovered_by"@ != "capital"@);
    assert("discovered_by"@ != "add_to_trade_company"@);
    assert("discovered_by"@ != "base_tax"@);
    assert("discovered_by"@ != "base_production"@);
    assert("discovered_by"@[0] == 'd' && "base_manpower"@[0] == 'b');
    assert("discovered_by"@ != "base_manpower"@);
    assert("discovered_by"@ != "native_size"@);
    assert("discovered_by"@ != "native_ferocity"@);
    assert("discovered_by"@ != "native_hostileness"@);
    assert("discovered_by"@ != "center_of_trade"@);
    assert("discovered_by"@ != "extra_cost"@);
    assert("discovered_by"@ != "add_local_autonomy"@);
    assert("discovered_by"@ != "unrest"@);
    assert("discovered_by"@ != "is_city"@);
    assert("discovered_by"@ != "hre"@);
    assert("discovered_by"@ != "seat_in_parliament"@);
    assert("discovered_by"@ != "add_core"@);
    assert("discovered_by"@ != "remove_core"@);
    assert("discovered_by"@ != "add_claim"@);
    assert("discovered_by"@ != "remove_claim"@);
    lemma_add_unique(st.discovered_by, v);
}

#[verifier::spinoff_prover]
#[verifier::rlimit(50)]
proof fn lemma_key_remove_core(st: SnapView, v: Seq<char>)
    ensures
        !apply_spec(st, "remove_core"@, VValue::Scalar(v)).cores.contains(v),
        forall|x: Seq<char>| st.cores.contains(x) && x != v ==> #[trigger] apply_spec(st, "remove_core"@, VValue::Scalar(v)).cores.contains(x),
        apply_spec(st, "remove_core"@, VValue::Scalar(v)) == (SnapView { cores: apply_spec(st, "remove_core"@, VValue::Scalar(v)).cores, ..st }),
{
    reveal_strlit("remove_core");
    assert("remove_core"@.len() == 11);
    reveal_strlit("latent_trade_goods");
    assert("latent_trade_goods"@.len() == 18);
    reveal_strlit("owner");
    assert("owner"@.len() == 5);
    reveal_strlit("controller");
    assert("controller"@.len() == 10);
    reveal_strlit("culture");
    assert("culture"@.len() == 7);
    reveal_strlit("religion");
    assert("religion"@.len() == 8);
    reveal_strlit("trade_goods");
    assert("trade_goods"@.len() == 11);
    reveal_strlit("tribal_owner");
    assert("tribal_owner"@.len() == 12);
    reveal_strlit("reformation_center");
    assert("reformation_center"@.len() == 18);
    reveal_strlit("capital");
    assert("capital"@.len() == 7);
    reveal_strlit("add_to_trade_company");
    assert("add_to_trade_company"@.len() == 20);
    reveal_strlit("base_tax");
    assert("base_tax"@.len() == 8);
    reveal_strlit("base_production");
    assert("base_production"@.len() == 15);
    reveal_strlit("base_manpower");
    assert("base_manpower"@.len() == 13);
    reveal_strlit("native_size");
    assert("native_size"@.len() == 11);
    reveal_strlit("native_ferocity");
    assert("native_ferocity"@.len() == 15);
    reveal_strlit("native_hostileness");
    assert("native_hostileness"@.len() == 18);
    reveal_strlit("center_of_trade");
    assert("center_of_trade"@.len() == 15);
    reveal_strlit("extra_cost");
    assert("extra_cost"@.len() == 10);
    reveal_strlit("add_local_autonomy");
    assert("add_local_autonomy"@.len() == 18);
    reveal_strlit("unrest");
    assert("unrest"@.len() == 6);
    reveal_strlit("is_city");
    assert("is_city"@.len() == 7);
    reveal_strlit("hre");
    assert("hre"@.len() == 3);
    reveal_strlit("seat_in_parliament");
    assert("seat_in_parliament"@.len() == 18);
    reveal_strlit("add_core");
    assert("add_core"@.len() == 8);
    assert("remove_core"@ != "latent_trade_goods"@);
    assert("remove_core"@ != "owner"@);
    assert("remove_core"@ != "controller"@);
    assert("remove_core"@ != "culture"@);
    assert("remove_core"@ != "religion"@);
    assert("remove_core"@[0] == 'r' && "trade_goods"@[0] == 't');
    assert("remove_core"@ != "trade_goods"@);
    assert("remove_core"@ != "tribal_owner"@);
    assert("remove_core"@ != "reformation_center"@);
    assert("remove_core"@ != "capital"@);
    assert("remove_core"@ != "add_to_trade_company"@);
    assert("remove_core"@ != "base_tax"@);
    assert("remove_core"@ != "base_production"@);
    assert("remove_core"@ != "base_manpower"@);
    assert("remove_core"@[0] == 'r' && "native_size"@[0] == 'n');
    assert("remove_core"@ != "native_size"@);
    assert("remove_core"@ != "native_ferocity"@);
    assert("remove_core"@ != "native_hostileness"@);
    assert("remove_core"@ != "center_of_trade"@);
    assert("remove_core"@ != "extra_cost"@);
    assert("remove_core"@ != "add_local_autonomy"@);
    assert("remove_core"@ != "unrest"@);
    assert("remove_core"@ != "is_city"@);
    assert("remove_core"@ != "hre"@);
    assert("remove_core"@ != "seat_in_parliament"@);
    assert("remove_core"@ != "add_core"@);
    lemma_add_unique(st.cores, v);
    lemma_without(st.cores, v);
}

#[verifier::spinoff_prover]
#[verifier::rlimit(50)]
proof fn lemma_key_remove_claim(st: SnapView, v: Seq<char>)
    ensures
        !apply_spec(st, "remove_claim"@, VValue::Scalar(v)).claims.contains(v),
        forall|x: Seq<char>| st.claims.contains(x) && x != v ==> #[trigger] apply_spec(st, "remove_claim"@, VValue::Scalar(v)).claims.contains(x),
        apply_spec(st, "remove_claim"@, VValue::Scalar(v)) == (SnapView { claims: apply_spec(st, "remove_claim"@, VValue::Scalar(v)).claims, ..st }),
{
    reveal_strlit("remove_claim");
    assert("remove_claim"@.len() == 12);
    reveal_strlit("latent_trade_goods");
    assert("latent_trade_goods"@.len() == 18);
    reveal_strlit("owner");
    assert("owner"@.len() == 5);
    reveal_strlit("controller");
    assert("controller"@.len() == 10);
    reveal_strlit("culture");
    assert("culture"@.len() == 7);
    reveal_strlit("religion");
    assert("religion"@.len() == 8);
    reveal_strlit("trade_goods");
    assert("trade_goods"@.len() == 11);
    reveal_strlit("tribal_owner");
    assert("tribal_owner"@.len() == 12);
    reveal_strlit("reformation_center");
    assert("reformation_center"@.len() == 18);
    reveal_strlit("capital");
    assert("capital"@.len() == 7);
    reveal_strlit("add_to_trade_company");
    assert("add_to_trade_company"@.len() == 20);
    reveal_strlit("base_tax");
    assert("base_tax"@.len() == 8);
    reveal_strlit("base_production");
    assert("base_production"@.len() == 15);
    reveal_strlit("base_manpower");
    assert("base_manpower"@.len() == 13);
    reveal_strlit("native_size");
    assert("native_size"@.len() == 11);
    reveal_strlit("native_ferocity");
    assert("native_ferocity"@.len() == 15);
    reveal_strlit("native_hostileness");
    assert("native_hostileness"@.len() == 18);
    reveal_strlit("center_of_trade");
    assert("center_of_trade"@.len() == 15);
    reveal_strlit("extra_cost");
    assert("extra_cost"@.len() == 10);
    reveal_strlit("add_local_autonomy");
    assert("add_local_autonomy"@.len() == 18);
    reveal_strlit("unrest");
    assert("unrest"@.len() == 6);
    reveal_strlit("is_city");
    assert("is_city"@.len() == 7);
    reveal_strlit("hre");
    assert("hre"@.len() == 3);
    reveal_strlit("seat_in_parliament");
    assert("seat_in_parliament"@.len() == 18);
    reveal_strlit("add_core");
    assert("add_core"@.len() == 8);
    reveal_strlit("remove_core");
    assert("remove_core"@.len() == 11);
    reveal_strlit("add_claim");
    assert("add_claim"@.len() == 9);
    assert("remove_claim"@ != "latent_trade_goods"@);
    assert("remove_claim"@ != "owner"@);
    assert("remove_claim"@ != "controller"@);
    assert("remove_claim"@ != "culture"@);
    assert("remove_claim"@ != "religion"@);
    assert("remove_claim"@ != "trade_goods"@);
    assert("remove_claim"@[0] == 'r' && "tribal_owner"@[0] == 't');
    assert("remove_claim"@ != "tribal_owner"@);
    assert("remove_claim"@ != "reformation_center"@);
    assert("remove_claim"@ != "capital"@);
    assert("remove_claim"@ != "add_to_trade_company"@);
    assert("remove_claim"@ != "base_tax"@);
    assert("remove_claim"@ != "base_production"@);
    assert("remove_claim"@ != "base_manpower"@);
    assert("remove_claim"@ != "native_size"@);
    assert("remove_claim"@ != "native_ferocity"@);
    assert("remove_claim"@ != "native_hostileness"@);
    assert("remove_claim"@ != "center_of_trade"@);
    assert("remove_claim"@ != "extra_cost"@);
    assert("remove_claim"@ != "add_local_autonomy"@);
    assert("remove_claim"@ != "unrest"@);
    assert("remove_claim"@ != "is_city"@);
    assert("remove_claim"@ != "hre"@);
    assert("remove_claim"@ != "seat_in_parliament"@);
    assert("remove_claim"@ != "add_core"@);
    assert("remove_claim"@ != "remove_core"@);
    assert("remove_claim"@ != "add_claim"@);
    lemma_add_unique(st.claims, v);
    lemma_without(st.claims, v);
}


/// Any other key is a building or flag: `key = yes` adds the key to the
/// buildings (keeping those already there), `key = no` takes it out, any
/// other value changes nothing; and a block value changes nothing for every
/// key but `latent_trade_goods`.
pub proof fn lemma_other_keys(st: SnapView, key: Seq<char>, v: Seq<char>, b: Seq<(Option<Seq<char>>, VValue)>)
    requires
        key != "latent_trade_goods"@,
        key != "owner"@,
        key != "controller"@,
        key != "culture"@,
        key != "religion"@,
        key != "trade_goods"@,
        key != "tribal_owner"@,
        key != "reformation_center"@,
        key != "capital"@,
        key != "add_to_trade_company"@,
        key != "base_tax"@,
        key != "base_production"@,
        key != "base_manpower"@,
        key != "native_size"@,
        key != "native_ferocity"@,
        key != "native_hostileness"@,
        key != "center_of_trade"@,
        key != "extra_cost"@,
        key != "add_local_autonomy"@,
        key != "unrest"@,
        key != "is_city"@,
        key != "hre"@,
        key != "seat_in_parliament"@,
        key != "add_core"@,
        key != "remove_core"@,
        key != "add_claim"@,
        key != "remove_claim"@,
        key != "discovered_by"@,
    ensures
        apply_spec(st, key, VValue::Scalar("yes"@)).buildings.contains(key),
        forall|x: Seq<char>| st.buildings.contains(x) ==> #[trigger] apply_spec(st, key, VValue::Scalar("yes"@)).buildings.contains(x),
        apply_spec(st, key, VValue::Scalar("yes"@)) == (SnapView { buildings: apply_spec(st, key, VValue::Scalar("yes"@)).buildings, ..st }),
        !apply_spec(st, key, VValue::Scalar("no"@)).buildings.contains(key),
        forall|x: Seq<char>| st.buildings.contains(x) && x != key ==> #[trigger] apply_spec(st, key, VValue::Scalar("no"@)).buildings.contains(x),
        apply_spec(st, key, VValue::Scalar("no"@)) == (SnapView { buildings: apply_spec(st, key, VValue::Scalar("no"@)).buildings, ..st }),
        v != "yes"@ && v != "no"@ ==> apply_spec(st, key, VValue::Scalar(v)) == st,
        apply_spec(st, key, VValue::Block(b)) == st,
{
    reveal_strlit("yes");
    assert("yes"@.len() == 3);
    reveal_strlit("no");
    assert("no"@.len() == 2);
    assert("yes"@ != "no"@);
    lemma_add_unique(st.buildings, key);
    lemma_without(st.buildings, key);
}

proof fn lemma_add_unique(s: Seq<Seq<char>>, v: Seq<char>)
    ensures
        add_unique(s, v).contains(v),
        forall|x: Seq<char>| s.contains(x) ==> #[trigger] add_unique(s, v).contains(x),
{
    if !s.contains(v) {
        assert(s.push(v)[s.len() as int] == v);
        assert forall|x: Seq<char>| s.contains(x) implies #[trigger] add_unique(s, v).contains(x) by {
            let k = choose|k: int| 0 <= k < s.len() && s[k] == x;
            assert(s.push(v)[k] == x);
        }
    }
}

proof fn lemma_without(s: Seq<Seq<char>>, v: Seq<char>)
    ensures
        !without(s, v).contains(v),
        forall|x: Seq<char>| s.contains(x) && x != v ==> #[trigger] without(s, v).contains(x),
    decreases s.len(),
{
    if s.len() > 0 {
        let init = s.drop_last();
        lemma_without(init, v);
        let w = without(init, v);
        if s.last() != v {
            assert(w.push(s.last())[w.len() as int] == s.last());
            assert forall|x: Seq<char>| s.contains(x) && x != v implies #[trigger] without(s, v).contains(x) by {
                let k = choose|k: int| 0 <= k < s.len() && s[k] == x;
                if k < s.len() - 1 {
                    assert(init[k] == x);
                    assert(init.contains(x));
                    assert(w.contains(x));
                    let m = choose|m: int| 0 <= m < w.len() && w[m] == x;
                    assert(w.push(s.last())[m] == x);
                }
            }
            assert(!without(s, v).contains(v)) by {
                if without(s, v).contains(v) {
                    let m = choose|m: int| 0 <= m < w.push(s.last()).len() && w.push(s.last())[m] == v;
                    if m < w.len() {
                        assert(w[m] == v);
                    }
                }
            }
        } else {
            assert forall|x: Seq<char>| s.contains(x) && x != v implies #[trigger] without(s, v).contains(x) by {
                let k = choose|k: int| 0 <= k < s.len() && s[k] == x;
                assert(init[k] == x);
            }
        }
    }
}

} // verus!
