//! The mission-tree designer backend.
//!
//! Mission trees live in `missions/*.txt`. Each file is a flat list of
//! top-level **series** blocks; a series carries layout and gating metadata
//! (`slot`, `generic`, `ai`, `has_country_shield`, `potential`) and a set of
//! **mission** child blocks (`icon`, `position`, `required_missions`,
//! `completed_by`, `provinces_to_highlight`, `trigger`, `effect`).
//!
//! * `slot` is series-level only: a mission's column is its series' slot.
//! * `position` is the row; when absent it defaults to the mission's 1-based
//!   ordinal within the series (`effective_position`).
//! * mission loc keys are `<key>_title` / `<key>_desc`.
//!
//! Every unmodeled key round-trips untouched — editing is always a
//! byte-surgical splice of one targeted span, and `required_missions` links
//! are bare-token `AddId`/`RemoveId` list edits. Linking is checked against
//! the `required_missions` graph so that no cycle is ever created.

use vstd::prelude::*;
use crate::on_actions::{bare_strings, block_occ, named_block};
use crate::paradox::{bare_texts, first_key, Block, Value};
use crate::text::{
    clone_strings, loc_get, loc_lookup, loc_view, opt_view, parse_unsigned, parse_unsigned_bytes, prettify,
    prettify_spec, segment, segment_spec, str_eq, strings_of,
};

verus! {

/// One mission node inside a series, ready for the board and node editor.
#[derive(Debug)]
pub struct MissionEntry {
    /// The mission script key (e.g. `invade_novgorod_mission`).
    pub key: String,
    /// The `icon` sprite name, if present (a bare `mission_*` GFX name).
    pub icon: Option<String>,
    /// The explicit `position` (row), if written.
    pub position: Option<u32>,
    /// 1-based index of this mission within the series (the absent-position default).
    pub ordinal: u32,
    /// `position` when present, else `ordinal` — the row the board lays it out at.
    pub effective_position: u32,
    /// Prerequisite mission keys from `required_missions` (bare tokens).
    pub required_missions: Vec<String>,
    /// The `completed_by` date scalar, if present.
    pub completed_by: Option<String>,
    /// Loc-resolved title (`<key>_title`, else the prettified key).
    pub title: String,
    /// The `<key>_title` loc key.
    pub title_key: String,
    /// The `<key>_desc` loc key.
    pub desc_key: String,
    /// The raw `<key>_title` loc value if defined.
    pub title_loc: Option<String>,
    /// The raw `<key>_desc` loc value if defined.
    pub desc_loc: Option<String>,
    /// Byte-surgical path to the mission block (`["<series>", "<mission>"]`,
    /// occurrence-qualified where a key repeats).
    pub path: Vec<String>,
    /// Path to the `trigger` block (present iff `has_trigger`).
    pub trigger_path: Vec<String>,
    /// Path to the `effect` block (present iff `has_effect`).
    pub effect_path: Vec<String>,
    /// Path to the `provinces_to_highlight` block (present iff `has_provinces`).
    pub provinces_path: Vec<String>,
    /// Path to the `required_missions` id-list (present iff `has_required_block`).
    pub required_path: Vec<String>,
    pub has_trigger: bool,
    pub has_effect: bool,
    pub has_provinces: bool,
    /// Whether a `required_missions = { … }` block is written (so links add
    /// into it rather than creating a duplicate).
    pub has_required_block: bool,
}

/// One mission series (top-level block in a `missions/*.txt` file).
#[derive(Debug)]
pub struct MissionSeries {
    /// The series script key (e.g. `consolidate_expand_russia_missions`).
    pub key: String,
    /// Game-relative file the series was found in.
    pub file: String,
    /// `base` or `mod` — which layer the source file came from.
    pub origin: String,
    /// The series' `slot` (1–5), if written.
    pub slot: Option<u32>,
    pub generic: bool,
    pub ai: bool,
    pub has_country_shield: bool,
    pub has_potential: bool,
    /// Byte-surgical path to the series block (`["<series>"]`).
    pub path: Vec<String>,
    /// Path to the `potential` block (present iff `has_potential`).
    pub potential_path: Vec<String>,
    /// The series' missions, in file order.
    pub missions: Vec<MissionEntry>,
}

/// One series' `potential` verdict, batched: the tags that pass (`yes`) and
/// the tags whose verdict is `unknown`, plus the condition keys the evaluator
/// couldn't decide.
#[derive(Debug)]
pub struct SeriesPotential {
    /// The series key (matches [`MissionSeries::key`]).
    pub key: String,
    /// The series' source file (a key alone can repeat across files).
    pub file: String,
    /// Tags whose `potential` evaluates `yes`.
    pub yes: Vec<String>,
    /// Tags whose `potential` evaluates `unknown`.
    pub unknown: Vec<String>,
    /// Condition keys not decided by the evaluator.
    pub unevaluated: Vec<String>,
}

// ---------------------------------------------------------------------------
// The required_missions graph
// ---------------------------------------------------------------------------

/// The edge list `(mission, required missions)` as texts.
pub open spec fn edges_view(e: Seq<(String, Vec<String>)>) -> Seq<(Seq<char>, Seq<Seq<char>>)> {
    e.map_values(|p: (String, Vec<String>)| (p.0@, strings_of(p.1@)))
}

/// The missions `x` requires: the list of the last entry for `x` (as a map
/// built from the entries in order keeps it), or none.
pub open spec fn deps_of(e: Seq<(Seq<char>, Seq<Seq<char>>)>, x: Seq<char>) -> Seq<Seq<char>>
    decreases e.len(),
{
    if e.len() == 0 {
        Seq::empty()
    } else if e.last().0 == x {
        e.last().1
    } else {
        deps_of(e.drop_last(), x)
    }
}

/// A chain of one or more `required_missions` links.
pub open spec fn is_chain(e: Seq<(Seq<char>, Seq<Seq<char>>)>, p: Seq<Seq<char>>) -> bool {
    p.len() >= 2 && forall|k: int| 0 <= k < p.len() - 1 ==> #[trigger] deps_of(e, p[k]).contains(p[k + 1])
}

/// `a` (transitively) requires `b`: a chain of links leads from `a` to `b`.
pub open spec fn requires_transitively(e: Seq<(Seq<char>, Seq<Seq<char>>)>, a: Seq<char>, b: Seq<char>) -> bool {
    exists|p: Seq<Seq<char>>| #[trigger] is_chain(e, p) && p[0] == a && p.last() == b
}

/// Every required-mission name of the graph.
pub open spec fn all_deps(e: Seq<(Seq<char>, Seq<Seq<char>>)>) -> Seq<Seq<char>>
    decreases e.len(),
{
    if e.len() == 0 {
        Seq::empty()
    } else {
        all_deps(e.drop_last()) + e.last().1
    }
}

proof fn lemma_deps_in_all(e: Seq<(Seq<char>, Seq<Seq<char>>)>, x: Seq<char>, d: Seq<char>)
    requires
        deps_of(e, x).contains(d),
    ensures
        all_deps(e).contains(d),
    decreases e.len(),
{
    if e.len() > 0 {
        let k = choose|k: int| 0 <= k < deps_of(e, x).len() && deps_of(e, x)[k] == d;
        if e.last().0 == x {
            assert(all_deps(e)[all_deps(e.drop_last()).len() + k] == d);
        } else {
            lemma_deps_in_all(e.drop_last(), x, d);
            let m = choose|m: int| 0 <= m < all_deps(e.drop_last()).len() && all_deps(e.drop_last())[m] == d;
            assert(all_deps(e)[m] == d);
        }
    }
}

/// A closed set of names reached from `start` holds every name a chain from
/// `start` reaches.
proof fn lemma_closed_holds_chains(e: Seq<(Seq<char>, Seq<Seq<char>>)>, start: Seq<char>, s: Seq<Seq<char>>, p: Seq<Seq<char>>, i: int)
    requires
        is_chain(e, p),
        p[0] == start,
        1 <= i < p.len(),
        forall|d: Seq<char>| deps_of(e, start).contains(d) ==> s.contains(d),
        forall|x: Seq<char>, d: Seq<char>| s.contains(x) && #[trigger] deps_of(e, x).contains(d) ==> s.contains(d),
    ensures
        s.contains(p[i]),
    decreases i,
{
    let k = i - 1;
    assert(deps_of(e, p[k]).contains(p[k + 1]));
    assert(p[k + 1] == p[i]);
    if i > 1 {
        lemma_closed_holds_chains(e, start, s, p, i - 1);
    }
}

fn deps_index(edges: &Vec<(String, Vec<String>)>, x: &str) -> (r: Option<usize>)
    ensures
        match r {
            Some(i) => i < edges@.len() && deps_of(edges_view(edges@), x@) == strings_of(edges@[i as int].1@),
            None => deps_of(edges_view(edges@), x@) == Seq::<Seq<char>>::empty(),
        },
{
    let ghost ev = edges_view(edges@);
    let mut j = edges.len();
    assert(ev.subrange(0, j as int) =~= ev);
    while j > 0
        invariant
            j <= edges@.len(),
            ev == edges_view(edges@),
            deps_of(ev, x@) == deps_of(ev.subrange(0, j as int), x@),
        decreases j,
    {
        let ghost sub = ev.subrange(0, j as int);
        assert(sub.drop_last() =~= ev.subrange(0, j - 1));
        if str_eq(edges[j - 1].0.as_str(), x) {
            return Some(j - 1);
        }
        j = j - 1;
    }
    None
}

fn contains_str(v: &Vec<String>, s: &str) -> (r: bool)
    ensures
        r == strings_of(v@).contains(s@),
{
    let mut i: usize = 0;
    while i < v.len()
        invariant
            i <= v@.len(),
            forall|k: int| 0 <= k < i ==> v@[k]@ != s@,
        decreases v@.len() - i,
    {
        if str_eq(v[i].as_str(), s) {
            assert(strings_of(v@)[i as int] == s@);
            return true;
        }
        i = i + 1;
    }
    proof {
        if strings_of(v@).contains(s@) {
            let k = choose|k: int| 0 <= k < strings_of(v@).len() && strings_of(v@)[k] == s@;
            assert(v@[k]@ == s@);
        }
    }
    false
}

/// The set of missions `start` (transitively) requires, following
/// `required_missions` links; `start` itself only when a chain leads back
/// to it.
fn requires_transitive(edges: &Vec<(String, Vec<String>)>, start: &str) -> (found: Vec<String>)
    ensures
        forall|x: Seq<char>| strings_of(found@).contains(x) <==> requires_transitively(edges_view(edges@), start@, x),
{
    let ghost e = edges_view(edges@);
    let ghost u = all_deps(e).to_set();
    let mut found: Vec<String> = Vec::new();
    let mut k: usize = 0;
    proof {
        vstd::seq_lib::seq_to_set_is_finite(all_deps(e));
    }
    // Seed with the direct requirements of `start`, then close under links.
    let mut first = true;
    let mut cur: usize = 0;
    loop
        invariant
            e == edges_view(edges@),
            u == all_deps(e).to_set(),
            u.finite(),
            k <= found@.len(),
            strings_of(found@).no_duplicates(),
            forall|x: Seq<char>| #[trigger] strings_of(found@).contains(x) ==> u.contains(x),
            forall|x: Seq<char>| #[trigger] strings_of(found@).contains(x) ==> requires_transitively(e, start@, x),
            !first ==> forall|d: Seq<char>| deps_of(e, start@).contains(d) ==> #[trigger] strings_of(found@).contains(d),
            forall|j: int, d: Seq<char>| 0 <= j < k && #[trigger] deps_of(e, found@[j]@).contains(d) ==> strings_of(found@).contains(d),
            first ==> k == 0,
        ensures
            k == found@.len(),
            forall|d: Seq<char>| deps_of(e, start@).contains(d) ==> #[trigger] strings_of(found@).contains(d),
            forall|j: int, d: Seq<char>| 0 <= j < k && #[trigger] deps_of(e, found@[j]@).contains(d) ==> strings_of(found@).contains(d),
        decreases (if first { 1int } else { 0int }) + u.len() - k,
    {
        if !first && k >= found.len() {
            break;
        }
        proof {
            strings_of(found@).unique_seq_to_set();
            vstd::set_lib::lemma_len_subset(strings_of(found@).to_set(), u);
        }
        let x: &str = if first { start } else { found[k].as_str() };
        let ghost xv = x@;
        let ghost prev = found@;
        proof {
            if !first {
                assert(strings_of(found@)[k as int] == xv);
                assert(strings_of(found@).contains(xv));
            }
        }
        match deps_index(edges, x) {
            None => {},
            Some(di) => {
                let ds = &edges[di].1;
                let mut m: usize = 0;
                while m < ds.len()
                    invariant
                        e == edges_view(edges@),
                        u == all_deps(e).to_set(),
                        u.finite(),
                        xv == x@,
                        deps_of(e, xv) == strings_of(ds@),
                        m <= ds@.len(),
                        prev.len() <= found@.len(),
                        forall|j: int| 0 <= j < prev.len() ==> found@[j] == prev[j],
                        forall|y: Seq<char>| strings_of(prev).contains(y) ==> #[trigger] strings_of(found@).contains(y),
                        strings_of(found@).no_duplicates(),
                        forall|y: Seq<char>| #[trigger] strings_of(found@).contains(y) ==> u.contains(y),
                        forall|y: Seq<char>| #[trigger] strings_of(found@).contains(y) ==> requires_transitively(e, start@, y),
                        requires_transitively(e, start@, xv) || xv == start@,
                        forall|q: int| 0 <= q < m ==> #[trigger] strings_of(found@).contains(strings_of(ds@)[q]),
                    decreases ds@.len() - m,
                {
                    let d = &ds[m];
                    let ghost dv = d@;
                    proof {
                        assert(strings_of(ds@)[m as int] == dv);
                    }
                    if !contains_str(&found, d.as_str()) {
                        let ghost before = found@;
                        proof {
                            assert(deps_of(e, xv).contains(dv));
                            lemma_deps_in_all(e, xv, dv);
                            // A chain to `x`, extended by the link to `d`.
                            if xv == start@ {
                                let p = seq![xv, dv];
                                assert(is_chain(e, p));
                            } else {
                                let p = choose|p: Seq<Seq<char>>| #[trigger] is_chain(e, p) && p[0] == start@ && p.last() == xv;
                                let q = p.push(dv);
                                assert forall|t: int| 0 <= t < q.len() - 1 implies #[trigger] deps_of(e, q[t]).contains(q[t + 1]) by {
                                    if t < p.len() - 1 {
                                        assert(q[t] == p[t] && q[t + 1] == p[t + 1]);
                                    }
                                }
                                assert(is_chain(e, q));
                            }
                        }
                        found.push(d.clone());
                        proof {
                            let sb = strings_of(before);
                            let sf = strings_of(found@);
                            assert(sf =~= sb.push(dv));
                            assert forall|y: Seq<char>| sb.contains(y) implies #[trigger] sf.contains(y) by {
                                let t = choose|t: int| 0 <= t < sb.len() && sb[t] == y;
                                assert(sf[t] == y);
                            }
                            assert forall|y: Seq<char>| #[trigger] sf.contains(y) implies u.contains(y) && requires_transitively(e, start@, y) by {
                                if y != dv {
                                    let t = choose|t: int| 0 <= t < sf.len() && sf[t] == y;
                                    assert(t < sb.len());
                                    assert(sb[t] == y);
                                    assert(sb.contains(y));
                                }
                            }
                            assert(sf.no_duplicates()) by {
                                assert forall|a: int, b: int| 0 <= a < b < sf.len() implies sf[a] != sf[b] by {
                                    if b == sb.len() {
                                        assert(sb[a] == sf[a]);
                                        assert(sb.contains(sf[a]));
                                    }
                                }
                            }
                            assert forall|q: int| 0 <= q <= m implies #[trigger] sf.contains(strings_of(ds@)[q]) by {
                                if q < m {
                                    assert(sb.contains(strings_of(ds@)[q]));
                                } else {
                                    assert(sf[sb.len() as int] == dv);
                                }
                            }
                        }
                    }
                    m = m + 1;
                }
                proof {
                    assert forall|d: Seq<char>| #[trigger] deps_of(e, xv).contains(d) implies strings_of(found@).contains(d) by {
                        let q = choose|q: int| 0 <= q < deps_of(e, xv).len() && deps_of(e, xv)[q] == d;
                        assert(strings_of(ds@)[q] == d);
                    }
                }
            },
        }
        proof {
            assert forall|j: int, d: Seq<char>| 0 <= j < k && #[trigger] deps_of(e, found@[j]@).contains(d) implies strings_of(found@).contains(d) by {
                assert(found@[j] == prev[j]);
                assert(strings_of(prev).contains(d));
            }
            if !first {
                assert forall|d: Seq<char>| deps_of(e, start@).contains(d) implies #[trigger] strings_of(found@).contains(d) by {
                    assert(strings_of(prev).contains(d));
                }
                assert(found@[k as int] == prev[k as int]);
            }
        }
        if first {
            first = false;
        } else {
            k = k + 1;
        }
    }
    proof {
        assert forall|x: Seq<char>| requires_transitively(e, start@, x) implies #[trigger] strings_of(found@).contains(x) by {
            let p = choose|p: Seq<Seq<char>>| #[trigger] is_chain(e, p) && p[0] == start@ && p.last() == x;
            let s = strings_of(found@);
            assert forall|y: Seq<char>, d: Seq<char>| s.contains(y) && #[trigger] deps_of(e, y).contains(d) implies s.contains(d) by {
                let j = choose|j: int| 0 <= j < s.len() && s[j] == y;
                assert(found@[j]@ == y);
            }
            lemma_closed_holds_chains(e, start@, s, p, p.len() - 1);
        }
    }
    found
}

/// Whether adding "`dependent` requires `prereq`" would create a cycle in the
/// `required_missions` graph `edges` (mission key → its required keys): when
/// `prereq == dependent`, or when `prereq` already (transitively) requires
/// `dependent`.
pub fn creates_cycle(edges: &Vec<(String, Vec<String>)>, dependent: &str, prereq: &str) -> (r: bool)
    ensures
        r == (dependent@ == prereq@ || requires_transitively(edges_view(edges@), prereq@, dependent@)),
{
    if str_eq(dependent, prereq) {
        return true;
    }
    let found = requires_transitive(edges, prereq);
    contains_str(&found, dependent)
}

/// The `required_missions` graph of one series: each mission's key with its
/// required keys, in mission order.
pub fn series_edges(series: &MissionSeries) -> (r: Vec<(String, Vec<String>)>)
    ensures
        edges_view(r@) == series.missions@.map_values(|m: MissionEntry| (m.key@, strings_of(m.required_missions@))),
{
    let mut out: Vec<(String, Vec<String>)> = Vec::new();
    let mut i: usize = 0;
    while i < series.missions.len()
        invariant
            i <= series.missions@.len(),
            edges_view(out@) == series.missions@.subrange(0, i as int).map_values(|m: MissionEntry| (m.key@, strings_of(m.required_missions@))),
        decreases series.missions@.len() - i,
    {
        let m = &series.missions[i];
        let ghost prev = out@;
        let k = m.key.clone();
        let rq = clone_strings(&m.required_missions);
        out.push((k, rq));
        assert(edges_view(out@) =~= edges_view(prev).push((m.key@, strings_of(m.required_missions@))));
        assert(edges_view(out@) =~= series.missions@.subrange(0, i + 1).map_values(|m: MissionEntry| (m.key@, strings_of(m.required_missions@))));
        i = i + 1;
    }
    assert(series.missions@.subrange(0, series.missions@.len() as int) =~= series.missions@);
    out
}

// ---------------------------------------------------------------------------
// Reading series and missions
// ---------------------------------------------------------------------------

/// What `str::parse::<u32>()` yields for the text.
pub open spec fn u32_of(t: Seq<char>) -> Option<u32> {
    match parse_unsigned(vstd::utf8::encode_utf8(t), u32::MAX as nat) {
        Some(v) => Some(v as u32),
        None => None,
    }
}

pub(crate) fn parse_u32(t: &str) -> (r: Option<u32>)
    ensures
        r == u32_of(t@),
{
    match parse_unsigned_bytes(t.as_bytes(), 0xFFFF_FFFFu64) {
        Some(v) => Some(v as u32),
        None => None,
    }
}

/// The scalar text of the first item keyed `key`, when that value is a scalar.
pub open spec fn scalar_in(items: Seq<(Option<String>, Value)>, key: Seq<char>) -> Option<Seq<char>> {
    match first_key(items, key) {
        Some(i) => match items[i].1 {
            Value::Scalar(v) => Some(v@),
            _ => None,
        },
        None => None,
    }
}

/// The block keys of a series that are not missions.
pub open spec fn is_series_block_key(k: Seq<char>) -> bool {
    k == "potential"@ || k == "potential_on_load"@
}

/// The spec view of one mission.
pub struct MissionView {
    pub key: Seq<char>,
    pub icon: Option<Seq<char>>,
    pub position: Option<u32>,
    pub ordinal: u32,
    pub effective_position: u32,
    pub required_missions: Seq<Seq<char>>,
    pub completed_by: Option<Seq<char>>,
    pub title: Seq<char>,
    pub title_key: Seq<char>,
    pub desc_key: Seq<char>,
    pub title_loc: Option<Seq<char>>,
    pub desc_loc: Option<Seq<char>>,
    pub path: Seq<Seq<char>>,
    pub trigger_path: Seq<Seq<char>>,
    pub effect_path: Seq<Seq<char>>,
    pub provinces_path: Seq<Seq<char>>,
    pub required_path: Seq<Seq<char>>,
    pub has_trigger: bool,
    pub has_effect: bool,
    pub has_provinces: bool,
    pub has_required_block: bool,
}

pub open spec fn mission_view(m: MissionEntry) -> MissionView {
    MissionView {
        key: m.key@,
        icon: opt_view(m.icon),
        position: m.position,
        ordinal: m.ordinal,
        effective_position: m.effective_position,
        required_missions: strings_of(m.required_missions@),
        completed_by: opt_view(m.completed_by),
        title: m.title@,
        title_key: m.title_key@,
        desc_key: m.desc_key@,
        title_loc: opt_view(m.title_loc),
        desc_loc: opt_view(m.desc_loc),
        path: strings_of(m.path@),
        trigger_path: strings_of(m.trigger_path@),
        effect_path: strings_of(m.effect_path@),
        provinces_path: strings_of(m.provinces_path@),
        required_path: strings_of(m.required_path@),
        has_trigger: m.has_trigger,
        has_effect: m.has_effect,
        has_provinces: m.has_provinces,
        has_required_block: m.has_required_block,
    }
}

/// The mission read from the block `mb` keyed `mk` (its `occ`-th block of
/// that key in the series at path segment `sseg`), with 1-based `ordinal`.
pub open spec fn mission_spec(sseg: Seq<char>, mk: Seq<char>, mb: Block, occ: nat, ordinal: u32, loc: Seq<(Seq<char>, Seq<char>)>) -> MissionView {
    let path = seq![sseg, segment_spec(mk, occ)];
    let items = mb.items@;
    let position = match scalar_in(items, "position"@) {
        Some(t) => u32_of(t),
        None => None,
    };
    let title_key = mk + "_title"@;
    let desc_key = mk + "_desc"@;
    MissionView {
        key: mk,
        icon: scalar_in(items, "icon"@),
        position,
        ordinal,
        effective_position: match position {
            Some(p) => p,
            None => ordinal,
        },
        required_missions: match named_block(items, "required_missions"@) {
            Some(b) => bare_texts(b.items@),
            None => Seq::empty(),
        },
        completed_by: scalar_in(items, "completed_by"@),
        title: match loc_get(loc, title_key) {
            Some(t) => t,
            None => prettify_spec(mk),
        },
        title_key,
        desc_key,
        title_loc: loc_get(loc, title_key),
        desc_loc: loc_get(loc, desc_key),
        path,
        trigger_path: path.push("trigger"@),
        effect_path: path.push("effect"@),
        provinces_path: path.push("provinces_to_highlight"@),
        required_path: path.push("required_missions"@),
        has_trigger: named_block(items, "trigger"@) is Some,
        has_effect: named_block(items, "effect"@) is Some,
        has_provinces: named_block(items, "provinces_to_highlight"@) is Some,
        has_required_block: named_block(items, "required_missions"@) is Some,
    }
}

/// The missions among the first `n` items of a series block: every keyed
/// block but `potential` / `potential_on_load`, in order.
pub open spec fn missions_upto(items: Seq<(Option<String>, Value)>, sseg: Seq<char>, loc: Seq<(Seq<char>, Seq<char>)>, n: int) -> Seq<MissionView>
    decreases n,
{
    if n <= 0 || n > items.len() {
        Seq::empty()
    } else {
        let rest = missions_upto(items, sseg, loc, n - 1);
        match items[n - 1] {
            (Some(k), Value::Block(b)) => if is_series_block_key(k@) {
                rest
            } else {
                rest.push(mission_spec(sseg, k@, b, block_occ(items, k@, n - 1), (rest.len() + 1) as u32, loc))
            },
            _ => rest,
        }
    }
}

/// The spec view of one series.
pub struct SeriesView {
    pub key: Seq<char>,
    pub file: Seq<char>,
    pub origin: Seq<char>,
    pub slot: Option<u32>,
    pub generic: bool,
    pub ai: bool,
    pub has_country_shield: bool,
    pub has_potential: bool,
    pub path: Seq<Seq<char>>,
    pub potential_path: Seq<Seq<char>>,
    pub missions: Seq<MissionView>,
}

pub open spec fn missions_view(v: Seq<MissionEntry>) -> Seq<MissionView> {
    v.map_values(|m: MissionEntry| mission_view(m))
}

pub open spec fn series_view(s: MissionSeries) -> SeriesView {
    SeriesView {
        key: s.key@,
        file: s.file@,
        origin: s.origin@,
        slot: s.slot,
        generic: s.generic,
        ai: s.ai,
        has_country_shield: s.has_country_shield,
        has_potential: s.has_potential,
        path: strings_of(s.path@),
        potential_path: strings_of(s.potential_path@),
        missions: missions_view(s.missions@),
    }
}

pub open spec fn series_list_view(v: Seq<MissionSeries>) -> Seq<SeriesView> {
    v.map_values(|s: MissionSeries| series_view(s))
}

/// Whether the item keyed `key` is the scalar `yes`.
pub open spec fn flag_spec(items: Seq<(Option<String>, Value)>, key: Seq<char>) -> bool {
    scalar_in(items, key) == Some("yes"@)
}

/// The series read from the block `sb` keyed `sk` (its `occ`-th block of that
/// key in the file).
pub open spec fn series_spec(sk: Seq<char>, sb: Block, occ: nat, file: Seq<char>, origin: Seq<char>, loc: Seq<(Seq<char>, Seq<char>)>) -> SeriesView {
    let seg = segment_spec(sk, occ);
    let items = sb.items@;
    SeriesView {
        key: sk,
        file,
        origin,
        slot: match scalar_in(items, "slot"@) {
            Some(t) => u32_of(t),
            None => None,
        },
        generic: flag_spec(items, "generic"@),
        ai: flag_spec(items, "ai"@),
        has_country_shield: flag_spec(items, "has_country_shield"@),
        has_potential: named_block(items, "potential"@) is Some,
        path: seq![seg],
        potential_path: seq![seg, "potential"@],
        missions: missions_upto(items, seg, loc, items.len() as int),
    }
}

/// The series among the first `n` top-level items of a file: every keyed
/// block, in order.
pub open spec fn series_upto(items: Seq<(Option<String>, Value)>, file: Seq<char>, origin: Seq<char>, loc: Seq<(Seq<char>, Seq<char>)>, n: int) -> Seq<SeriesView>
    decreases n,
{
    if n <= 0 || n > items.len() {
        Seq::empty()
    } else {
        let rest = series_upto(items, file, origin, loc, n - 1);
        match items[n - 1] {
            (Some(k), Value::Block(b)) => rest.push(series_spec(k@, b, block_occ(items, k@, n - 1), file, origin, loc)),
            _ => rest,
        }
    }
}

fn scalar_text(b: &Block, key: &str) -> (r: Option<String>)
    ensures
        opt_view(r) == scalar_in(b.items@, key@),
{
    match b.get_scalar(key) {
        Some(s) => Some(s.to_string()),
        None => None,
    }
}

fn path_plus(path: &Vec<String>, tail: &str) -> (r: Vec<String>)
    ensures
        strings_of(r@) == strings_of(path@).push(tail@),
{
    let mut p = clone_strings(path);
    p.push(tail.to_string());
    assert(strings_of(p@) =~= strings_of(path@).push(tail@));
    p
}

fn suffixed(key: &String, suffix: &str) -> (r: String)
    ensures
        r@ == key@ + suffix@,
{
    let mut s = key.clone();
    s.append(suffix);
    s
}

fn build_mission(sseg: &String, mk: &String, mb: &Block, occ: usize, ordinal: u32, loc: &[(String, String)]) -> (m: MissionEntry)
    ensures
        mission_view(m) == mission_spec(sseg@, mk@, *mb, occ as nat, ordinal, loc_view(loc@)),
{
    let mut path: Vec<String> = Vec::new();
    path.push(sseg.clone());
    path.push(segment(mk.as_str(), occ));
    assert(strings_of(path@) =~= seq![sseg@, segment_spec(mk@, occ as nat)]);
    let position = match mb.get_scalar("position") {
        Some(t) => parse_u32(t),
        None => None,
    };
    let required_block = mb.get_block("required_missions");
    let required_missions = match required_block {
        Some(b) => bare_strings(b),
        None => {
            let v: Vec<String> = Vec::new();
            assert(strings_of(v@) =~= Seq::<Seq<char>>::empty());
            v
        },
    };
    let title_key = suffixed(mk, "_title");
    let desc_key = suffixed(mk, "_desc");
    let title_loc = loc_lookup(loc, &title_key);
    let desc_loc = loc_lookup(loc, &desc_key);
    let title = match &title_loc {
        Some(t) => t.clone(),
        None => prettify(mk.as_str()),
    };
    let trigger_path = path_plus(&path, "trigger");
    let effect_path = path_plus(&path, "effect");
    let provinces_path = path_plus(&path, "provinces_to_highlight");
    let required_path = path_plus(&path, "required_missions");
    MissionEntry {
        key: mk.clone(),
        icon: scalar_text(mb, "icon"),
        position,
        ordinal,
        effective_position: match position {
            Some(p) => p,
            None => ordinal,
        },
        required_missions,
        completed_by: scalar_text(mb, "completed_by"),
        title,
        title_key,
        desc_key,
        title_loc,
        desc_loc,
        path,
        trigger_path,
        effect_path,
        provinces_path,
        required_path,
        has_trigger: mb.get_block("trigger").is_some(),
        has_effect: mb.get_block("effect").is_some(),
        has_provinces: mb.get_block("provinces_to_highlight").is_some(),
        has_required_block: required_block.is_some(),
    }
}

fn is_yes(b: &Block, key: &str) -> (r: bool)
    ensures
        r == flag_spec(b.items@, key@),
{
    match b.get_scalar(key) {
        Some(s) => {
            let r = str_eq(s, "yes");
            r
        },
        None => false,
    }
}

fn count_occ(items: &Vec<(Option<String>, Value)>, k: &str, idx: usize) -> (r: usize)
    requires
        idx <= items@.len(),
    ensures
        r as nat == block_occ(items@, k@, idx as int),
{
    let mut n: usize = 0;
    let mut j: usize = 0;
    while j < idx
        invariant
            j <= idx,
            idx <= items@.len(),
            n <= j,
            n as nat == block_occ(items@, k@, j as int),
        decreases idx - j,
    {
        let hit = match &items[j] {
            (Some(s), Value::Block(_)) => str_eq(s.as_str(), k),
            _ => false,
        };
        if hit {
            n = n + 1;
        }
        j = j + 1;
    }
    n
}

fn series_key_exec(k: &String) -> (r: bool)
    ensures
        r == is_series_block_key(k@),
{
    str_eq(k.as_str(), "potential") || str_eq(k.as_str(), "potential_on_load")
}

fn build_series(sk: &String, sb: &Block, occ: usize, file: &str, origin: &str, loc: &[(String, String)]) -> (r: MissionSeries)
    ensures
        series_view(r) == series_spec(sk@, *sb, occ as nat, file@, origin@, loc_view(loc@)),
{
    let seg = segment(sk.as_str(), occ);
    let mut missions: Vec<MissionEntry> = Vec::new();
    let mut i: usize = 0;
    while i < sb.items.len()
        invariant
            i <= sb.items@.len(),
            missions@.len() <= i,
            missions_view(missions@) == missions_upto(sb.items@, seg@, loc_view(loc@), i as int),
        decreases sb.items@.len() - i,
    {
        let ghost before = missions@;
        match &sb.items[i] {
            (Some(mk), Value::Block(mb)) => {
                if !series_key_exec(mk) {
                    let mocc = count_occ(&sb.items, mk.as_str(), i);
                    let ordinal = (missions.len() + 1) as u32;
                    let m = build_mission(&seg, mk, mb, mocc, ordinal, loc);
                    missions.push(m);
                    assert(missions_view(missions@) =~= missions_view(before).push(mission_view(missions@.last())));
                }
            },
            _ => {},
        }
        i = i + 1;
    }
    let mut path: Vec<String> = Vec::new();
    path.push(seg.clone());
    assert(strings_of(path@) =~= seq![seg@]);
    let potential_path = path_plus(&path, "potential");
    let slot = match sb.get_scalar("slot") {
        Some(t) => parse_u32(t),
        None => None,
    };
    let r = MissionSeries {
        key: sk.clone(),
        file: file.to_string(),
        origin: origin.to_string(),
        slot,
        generic: is_yes(sb, "generic"),
        ai: is_yes(sb, "ai"),
        has_country_shield: is_yes(sb, "has_country_shield"),
        has_potential: sb.get_block("potential").is_some(),
        path,
        potential_path,
        missions,
    };
    let ghost want = series_spec(sk@, *sb, occ as nat, file@, origin@, loc_view(loc@));
    assert(series_view(r).key == want.key);
    assert(series_view(r).slot == want.slot);
    assert(series_view(r).generic == want.generic);
    assert(series_view(r).has_potential == want.has_potential);
    assert(series_view(r).path == want.path);
    assert(series_view(r).potential_path == want.potential_path);
    assert(series_view(r).missions == want.missions);
    r
}

/// Extracts every series from one parsed file's `block`, pushing a
/// [`MissionSeries`] per top-level keyed block. `loc` holds the
/// localisation pairs `(key, text)` that mission titles resolve against
/// (the first pair for a key wins).
pub fn collect_file(block: &Block, file: &str, origin: &str, loc: &[(String, String)], out: &mut Vec<MissionSeries>)
    ensures
        series_list_view(final(out)@) == series_list_view(old(out)@) + series_upto(
            block.items@,
            file@,
            origin@,
            loc_view(loc@),
            block.items@.len() as int,
        ),
{
    let ghost start = series_list_view(out@);
    let mut i: usize = 0;
    while i < block.items.len()
        invariant
            i <= block.items@.len(),
            series_list_view(out@) == start + series_upto(block.items@, file@, origin@, loc_view(loc@), i as int),
        decreases block.items@.len() - i,
    {
        let ghost before = out@;
        match &block.items[i] {
            (Some(k), Value::Block(sb)) => {
                let occ = count_occ(&block.items, k.as_str(), i);
                let sr = build_series(k, sb, occ, file, origin, loc);
                out.push(sr);
                assert(series_list_view(out@) =~= series_list_view(before).push(series_view(out@.last())));
            },
            _ => {},
        }
        i = i + 1;
    }
}

} // verus!
