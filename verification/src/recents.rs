//! Recent projects: the launch screen's most-recently-opened list.
//!
//! Each entry records the session that was opened: the project folder (absent
//! for base-game sessions), the install it was opened against, a display name,
//! a last-opened timestamp (unix millis), and a pin flag. Identity for dedupe is
//! the project path (case-insensitively, slash-normalized), or — for base
//! sessions, which have no project — the install path. Reopening the same
//! identity bumps its timestamp in place instead of adding a duplicate row.
//!
//! The list is kept sorted — pinned rows first, each group most-recent-first —
//! and holds at most [`MAX_UNPINNED`] unpinned rows; pinned rows are never
//! dropped. `missing` is recomputed from the live filesystem before the list
//! reaches the UI, from checks the caller makes.

use vstd::prelude::*;
use vstd::multiset::Multiset;
use crate::paradox::{parse, scalar_of};
use crate::script_tree::{is_uni_ws, is_uni_ws_exec};
use crate::text::{chars_of, opt_view, str_eq, string_from_chars};

verus! {

/// Settings key the list is stored under.
pub const RECENTS_KEY: &'static str = "recent_projects";

/// Cap on unpinned rows. Pinned rows are always kept; the oldest unpinned rows
/// beyond this fall off.
pub const MAX_UNPINNED: usize = 15;

/// One recorded session.
#[derive(Debug)]
pub struct RecentProject {
    /// The mod folder; `None` for base-game sessions.
    pub project_path: Option<String>,
    pub install_path: String,
    pub display_name: String,
    /// Unix time in milliseconds.
    pub last_opened: i64,
    pub pinned: bool,
    /// Recomputed at list time from the filesystem; never trusted from storage.
    pub missing: bool,
}

// ---------------------------------------------------------------------------
// Identity
// ---------------------------------------------------------------------------

/// What `str::to_lowercase` gives for the text `s` (Unicode lower-casing).
pub uninterp spec fn unicode_lower(s: Seq<char>) -> Seq<char>;

/// `str::to_lowercase`: the result depends on the text alone.
#[verifier::external_body]
pub(crate) fn to_lowercase(s: &str) -> (r: String)
    ensures
        r@ == unicode_lower(s@),
{
    s.to_lowercase()
}

/// Every `/` replaced by `\`.
pub open spec fn backslashed(s: Seq<char>) -> Seq<char> {
    s.map_values(|c: char| if c == '/' { '\\' } else { c })
}

/// The text without its trailing run of `\`.
pub open spec fn trim_backslashes(s: Seq<char>) -> Seq<char>
    decreases s.len(),
{
    if s.len() > 0 && s.last() == '\\' {
        trim_backslashes(s.drop_last())
    } else {
        s
    }
}

/// Slash-normalized, trailing-separator-trimmed, lowercased — Windows paths
/// are case-insensitive and reach the same folder via `/` or `\`.
pub open spec fn normalize_spec(path: Seq<char>) -> Seq<char> {
    unicode_lower(trim_backslashes(backslashed(path)))
}

/// Dedupe identity: the project folder, or (for base sessions) the install.
pub open spec fn identity_spec(project_path: Option<Seq<char>>, install_path: Seq<char>) -> Seq<char> {
    match project_path {
        Some(p) => normalize_spec(p),
        None => "__base__|"@ + normalize_spec(install_path),
    }
}

/// The identity of a recorded row.
pub open spec fn row_id(e: RecentProject) -> Seq<char> {
    identity_spec(opt_view(e.project_path), e.install_path@)
}

fn normalize(path: &str) -> (r: String)
    ensures
        r@ == normalize_spec(path@),
{
    let cs = chars_of(path);
    let mut out: Vec<char> = Vec::new();
    let mut i: usize = 0;
    while i < cs.len()
        invariant
            i <= cs@.len(),
            out@ == backslashed(cs@.subrange(0, i as int)),
        decreases cs@.len() - i,
    {
        let c = cs[i];
        out.push(if c == '/' { '\\' } else { c });
        assert(backslashed(cs@.subrange(0, i + 1)) =~= backslashed(cs@.subrange(0, i as int)).push(
            if cs@[i as int] == '/' { '\\' } else { cs@[i as int] },
        ));
        i = i + 1;
    }
    assert(cs@.subrange(0, cs@.len() as int) =~= cs@);
    while out.len() > 0 && out[out.len() - 1] == '\\'
        invariant
            trim_backslashes(out@) == trim_backslashes(backslashed(path@)),
        decreases out@.len(),
    {
        out.pop();
    }
    let trimmed = string_from_chars(out.as_slice());
    to_lowercase(trimmed.as_str())
}

fn identity(project_path: &Option<String>, install_path: &str) -> (r: String)
    ensures
        r@ == identity_spec(opt_view(*project_path), install_path@),
{
    match project_path {
        Some(p) => normalize(p.as_str()),
        None => {
            let mut s = String::from_str("__base__|");
            let n = normalize(install_path);
            s.append(n.as_str());
            s
        },
    }
}

// ---------------------------------------------------------------------------
// Order and cap
// ---------------------------------------------------------------------------

/// `a` sorts strictly before `b`: pinned rows first; within each group, the
/// most recently opened first.
pub open spec fn goes_before(a: RecentProject, b: RecentProject) -> bool {
    (a.pinned && !b.pinned) || (a.pinned == b.pinned && a.last_opened > b.last_opened)
}

/// The list is in display order: no row sorts strictly before an earlier one.
pub open spec fn is_sorted(s: Seq<RecentProject>) -> bool {
    forall|i: int, j: int| 0 <= i < j < s.len() ==> !goes_before(#[trigger] s[j], #[trigger] s[i])
}

/// First index at or after `j` whose row `x` sorts strictly before (else the
/// length): where a stable sort places `x` when it comes after all of `t`.
pub open spec fn slot_from(t: Seq<RecentProject>, x: RecentProject, j: int) -> int
    decreases t.len() - j,
{
    if j < 0 || j >= t.len() {
        t.len() as int
    } else if goes_before(x, t[j]) {
        j
    } else {
        slot_from(t, x, j + 1)
    }
}

/// `x` inserted into the ordered `t` after every row it does not sort before.
pub open spec fn insert_sorted(t: Seq<RecentProject>, x: RecentProject) -> Seq<RecentProject> {
    t.insert(slot_from(t, x, 0), x)
}

/// The stable sort of `s` by [`goes_before`] (what `sort_by` gives).
pub open spec fn sort_spec(s: Seq<RecentProject>) -> Seq<RecentProject>
    decreases s.len(),
{
    if s.len() == 0 {
        s
    } else {
        insert_sorted(sort_spec(s.drop_last()), s.last())
    }
}

/// Every pinned row, plus the unpinned rows while fewer than
/// [`MAX_UNPINNED`] unpinned rows (`seen` of them before `s`) were kept.
pub open spec fn cap_from(s: Seq<RecentProject>, seen: nat) -> Seq<RecentProject>
    decreases s.len(),
{
    if s.len() == 0 {
        s
    } else if s[0].pinned {
        seq![s[0]] + cap_from(s.skip(1), seen)
    } else if seen < MAX_UNPINNED {
        seq![s[0]] + cap_from(s.skip(1), seen + 1)
    } else {
        cap_from(s.skip(1), seen + 1)
    }
}

/// The number of unpinned rows.
pub open spec fn unpinned_count(s: Seq<RecentProject>) -> nat
    decreases s.len(),
{
    if s.len() == 0 {
        0
    } else {
        (if s[0].pinned { 0nat } else { 1nat }) + unpinned_count(s.skip(1))
    }
}

/// No two rows share an identity.
pub open spec fn ids_unique(s: Seq<RecentProject>) -> bool {
    forall|i: int, j: int| 0 <= i < j < s.len() ==> row_id(#[trigger] s[i]) != row_id(#[trigger] s[j])
}

proof fn lemma_slot(t: Seq<RecentProject>, x: RecentProject, j: int)
    requires
        0 <= j <= t.len(),
    ensures
        j <= slot_from(t, x, j) <= t.len(),
        forall|i: int| j <= i < slot_from(t, x, j) ==> !goes_before(x, #[trigger] t[i]),
        slot_from(t, x, j) < t.len() ==> goes_before(x, t[slot_from(t, x, j)]),
    decreases t.len() - j,
{
    if j < t.len() && !goes_before(x, t[j]) {
        lemma_slot(t, x, j + 1);
    }
}

proof fn lemma_insert_sorted(t: Seq<RecentProject>, x: RecentProject)
    requires
        is_sorted(t),
    ensures
        is_sorted(insert_sorted(t, x)),
        insert_sorted(t, x).to_multiset() == t.to_multiset().insert(x),
        insert_sorted(t, x).len() == t.len() + 1,
{
    lemma_slot(t, x, 0);
    let k = slot_from(t, x, 0);
    let r = t.insert(k, x);
    assert forall|i: int, j: int| 0 <= i < j < r.len() implies !goes_before(#[trigger] r[j], #[trigger] r[i]) by {
        if j < k {
        } else if j == k {
        } else if i < k {
        } else if i == k {
            assert(r[j] == t[j - 1]);
            assert(!goes_before(t[j - 1], t[k]));
        } else {
        }
    }
    vstd::seq_lib::to_multiset_insert(t, k, x);
}

/// The order law: sorting gives a list in display order holding exactly the
/// given rows.
pub proof fn lemma_sort_spec(s: Seq<RecentProject>)
    ensures
        is_sorted(sort_spec(s)),
        sort_spec(s).to_multiset() == s.to_multiset(),
        sort_spec(s).len() == s.len(),
        ids_unique(s) ==> ids_unique(sort_spec(s)),
    decreases s.len(),
{
    broadcast use vstd::seq_lib::to_multiset_build, vstd::seq_lib::to_multiset_len;
    if s.len() > 0 {
        let init = s.drop_last();
        let t = sort_spec(init);
        lemma_sort_spec(init);
        lemma_insert_sorted(t, s.last());
        assert(init.push(s.last()) =~= s);
        if ids_unique(s) {
            assert(ids_unique(init)) by {
                assert forall|i: int, j: int| 0 <= i < j < init.len() implies row_id(#[trigger] init[i]) != row_id(#[trigger] init[j]) by {
                    assert(init[i] == s[i] && init[j] == s[j]);
                }
            }
            assert forall|i: int| 0 <= i < t.len() implies row_id(#[trigger] t[i]) != row_id(s.last()) by {
                vstd::seq_lib::to_multiset_contains(t, t[i]);
                vstd::seq_lib::to_multiset_contains(init, t[i]);
                assert(t.contains(t[i]));
                let m = choose|m: int| 0 <= m < init.len() && init[m] == t[i];
                assert(s[m] == init[m]);
            }
            lemma_insert_unique(t, s.last());
        }
    }
}

proof fn lemma_insert_unique(t: Seq<RecentProject>, x: RecentProject)
    requires
        ids_unique(t),
        forall|i: int| 0 <= i < t.len() ==> row_id(#[trigger] t[i]) != row_id(x),
    ensures
        ids_unique(insert_sorted(t, x)),
{
    lemma_slot(t, x, 0);
    let k = slot_from(t, x, 0);
    let r = t.insert(k, x);
    assert forall|i: int, j: int| 0 <= i < j < r.len() implies row_id(#[trigger] r[i]) != row_id(#[trigger] r[j]) by {
        if j < k {
        } else if j == k {
            assert(r[i] == t[i]);
        } else if i < k {
            assert(r[j] == t[j - 1]);
        } else if i == k {
            assert(r[j] == t[j - 1]);
        } else {
            assert(r[j] == t[j - 1] && r[i] == t[i - 1]);
        }
    }
}

fn goes_before_exec(a: &RecentProject, b: &RecentProject) -> (r: bool)
    ensures
        r == goes_before(*a, *b),
{
    (a.pinned && !b.pinned) || (a.pinned == b.pinned && a.last_opened > b.last_opened)
}

/// Stable sort: pinned rows first; within each group, most-recently-opened first.
pub fn sort(list: &mut Vec<RecentProject>)
    ensures
        final(list)@ == sort_spec(old(list)@),
{
    let mut rest: Vec<RecentProject> = Vec::new();
    std::mem::swap(&mut rest, list);
    let ghost orig = rest@;
    let mut out: Vec<RecentProject> = Vec::new();
    let ghost mut k: int = 0;
    while rest.len() > 0
        invariant
            0 <= k <= orig.len(),
            rest@ == orig.skip(k),
            out@ == sort_spec(orig.take(k)),
        decreases rest@.len(),
    {
        let e = rest.remove(0);
        let mut p: usize = 0;
        while p < out.len() && !goes_before_exec(&e, &out[p])
            invariant
                p <= out@.len(),
                slot_from(out@, e, p as int) == slot_from(out@, e, 0),
            decreases out@.len() - p,
        {
            p = p + 1;
        }
        proof {
            assert(orig.take(k + 1).drop_last() =~= orig.take(k));
            assert(orig.take(k + 1).last() == e);
        }
        out.insert(p, e);
        proof {
            assert(orig.skip(k).remove(0) =~= orig.skip(k + 1));
            k = k + 1;
        }
    }
    assert(orig.take(k) =~= orig);
    *list = out;
}

/// Keep every pinned row plus the first `MAX_UNPINNED` unpinned rows.
pub fn cap(list: &mut Vec<RecentProject>)
    ensures
        final(list)@ == cap_from(old(list)@, 0),
{
    let mut rest: Vec<RecentProject> = Vec::new();
    std::mem::swap(&mut rest, list);
    let ghost orig = rest@;
    let mut out: Vec<RecentProject> = Vec::new();
    let mut seen: usize = 0;
    let n0 = rest.len();
    while rest.len() > 0
        invariant
            n0 == orig.len(),
            seen <= orig.len(),
            rest@.len() + seen <= orig.len(),
            out@ + cap_from(rest@, seen as nat) == cap_from(orig, 0),
        decreases rest@.len(),
    {
        let ghost before = rest@;
        let e = rest.remove(0);
        assert(before.skip(1) =~= rest@);
        if e.pinned {
            out.push(e);
            assert(cap_from(before, seen as nat) == seq![before[0]] + cap_from(rest@, seen as nat));
        } else {
            if seen < MAX_UNPINNED {
                out.push(e);
            }
            seen = seen + 1;
        }
        assert(out@ + cap_from(rest@, seen as nat) =~= cap_from(orig, 0));
    }
    *list = out;
}

proof fn lemma_cap_from(s: Seq<RecentProject>, seen: nat)
    ensures
        seen <= MAX_UNPINNED ==> unpinned_count(cap_from(s, seen)) + seen <= MAX_UNPINNED,
        seen > MAX_UNPINNED ==> unpinned_count(cap_from(s, seen)) == 0,
        forall|i: int| 0 <= i < cap_from(s, seen).len() ==> s.contains(#[trigger] cap_from(s, seen)[i]),
        forall|x: RecentProject| x.pinned ==> #[trigger] cap_from(s, seen).to_multiset().count(x) == s.to_multiset().count(x),
        is_sorted(s) ==> is_sorted(cap_from(s, seen)),
        ids_unique(s) ==> ids_unique(cap_from(s, seen)),
        unpinned_count(s) + seen <= MAX_UNPINNED ==> cap_from(s, seen) == s,
    decreases s.len(),
{
    broadcast use vstd::multiset::group_multiset_axioms;
    if s.len() > 0 {
        let rest = s.skip(1);
        let next: nat = if s[0].pinned { seen } else { seen + 1 };
        lemma_cap_from(rest, next);
        let t = cap_from(rest, next);
        let one = seq![s[0]];
        assert(s =~= one + rest);
        assert(one =~= Seq::<RecentProject>::empty().push(s[0]));
        vstd::seq_lib::to_multiset_build(Seq::<RecentProject>::empty(), s[0]);
        vstd::seq_lib::lemma_multiset_commutative(one, rest);
        assert(Seq::<RecentProject>::empty().to_multiset() =~= Multiset::<RecentProject>::empty()) by {
            vstd::seq_lib::to_multiset_len(Seq::<RecentProject>::empty());
        }
        let r = cap_from(s, seen);
        if s[0].pinned || seen < MAX_UNPINNED {
            assert(r == seq![s[0]] + t);
            vstd::seq_lib::lemma_multiset_commutative(one, t);
            assert((one + t).skip(1) =~= t);
            assert(unpinned_count(r) == (if s[0].pinned { 0nat } else { 1nat }) + unpinned_count(t));
            assert forall|i: int| 0 <= i < r.len() implies s.contains(#[trigger] r[i]) by {
                if i == 0 {
                    assert(s[0] == r[0]);
                } else {
                    assert(r[i] == t[i - 1]);
                    assert(rest.contains(t[i - 1]));
                    let m = choose|m: int| 0 <= m < rest.len() && rest[m] == t[i - 1];
                    assert(s[m + 1] == rest[m]);
                }
            }
            if is_sorted(s) {
                assert(is_sorted(rest)) by {
                    assert forall|i: int, j: int| 0 <= i < j < rest.len() implies !goes_before(#[trigger] rest[j], #[trigger] rest[i]) by {
                        assert(rest[j] == s[j + 1] && rest[i] == s[i + 1]);
                    }
                }
                assert forall|i: int, j: int| 0 <= i < j < r.len() implies !goes_before(#[trigger] r[j], #[trigger] r[i]) by {
                    if i == 0 {
                        assert(r[j] == t[j - 1]);
                        assert(rest.contains(t[j - 1]));
                        let m = choose|m: int| 0 <= m < rest.len() && rest[m] == t[j - 1];
                        assert(s[m + 1] == rest[m]);
                    } else {
                        assert(r[j] == t[j - 1] && r[i] == t[i - 1]);
                    }
                }
            }
            if ids_unique(s) {
                assert(ids_unique(rest)) by {
                    assert forall|i: int, j: int| 0 <= i < j < rest.len() implies row_id(#[trigger] rest[i]) != row_id(#[trigger] rest[j]) by {
                        assert(rest[j] == s[j + 1] && rest[i] == s[i + 1]);
                    }
                }
                assert forall|i: int, j: int| 0 <= i < j < r.len() implies row_id(#[trigger] r[i]) != row_id(#[trigger] r[j]) by {
                    if i == 0 {
                        assert(r[j] == t[j - 1]);
                        assert(rest.contains(t[j - 1]));
                        let m = choose|m: int| 0 <= m < rest.len() && rest[m] == t[j - 1];
                        assert(s[m + 1] == rest[m]);
                    } else {
                        assert(r[j] == t[j - 1] && r[i] == t[i - 1]);
                    }
                }
            }
            if unpinned_count(s) + seen <= MAX_UNPINNED {
                assert(s =~= one + rest);
            }
        } else {
            assert(r == t);
            assert forall|i: int| 0 <= i < r.len() implies s.contains(#[trigger] r[i]) by {
                assert(rest.contains(t[i]));
                let m = choose|m: int| 0 <= m < rest.len() && rest[m] == t[i];
                assert(s[m + 1] == rest[m]);
            }
            if is_sorted(s) {
                assert(is_sorted(rest)) by {
                    assert forall|i: int, j: int| 0 <= i < j < rest.len() implies !goes_before(#[trigger] rest[j], #[trigger] rest[i]) by {
                        assert(rest[j] == s[j + 1] && rest[i] == s[i + 1]);
                    }
                }
            }
            if ids_unique(s) {
                assert(ids_unique(rest)) by {
                    assert forall|i: int, j: int| 0 <= i < j < rest.len() implies row_id(#[trigger] rest[i]) != row_id(#[trigger] rest[j]) by {
                        assert(rest[j] == s[j + 1] && rest[i] == s[i + 1]);
                    }
                }
            }
        }
    }
}

/// The cap law: capping keeps every pinned row (with its multiplicity),
/// leaves at most [`MAX_UNPINNED`] unpinned rows, keeps the display order and
/// distinct identities, and changes nothing on a list already within the cap.
pub proof fn lemma_cap(s: Seq<RecentProject>)
    ensures
        unpinned_count(cap_from(s, 0)) <= MAX_UNPINNED,
        forall|x: RecentProject| x.pinned ==> #[trigger] cap_from(s, 0).to_multiset().count(x) == s.to_multiset().count(x),
        is_sorted(s) ==> is_sorted(cap_from(s, 0)),
        ids_unique(s) ==> ids_unique(cap_from(s, 0)),
        unpinned_count(s) <= MAX_UNPINNED ==> cap_from(s, 0) == s,
{
    lemma_cap_from(s, 0);
}

// ---------------------------------------------------------------------------
// List operations
// ---------------------------------------------------------------------------

/// `e` with its pin flag set to `p`.
pub open spec fn with_pin(e: RecentProject, p: bool) -> RecentProject {
    RecentProject { pinned: p, ..e }
}

/// Keeps the rows whose identity is not `id`.
pub open spec fn not_id(id: Seq<char>) -> spec_fn(RecentProject) -> bool {
    |e: RecentProject| row_id(e) != id
}

/// The rows of `list` whose identity is not `id`, in order.
pub open spec fn others(list: Seq<RecentProject>, id: Seq<char>) -> Seq<RecentProject> {
    list.filter(not_id(id))
}

/// Whether some row among the first `k` of `list` has identity `id` and is pinned.
pub open spec fn pinned_with_id(list: Seq<RecentProject>, id: Seq<char>, k: int) -> bool {
    exists|i: int| 0 <= i < k && i < list.len() && row_id(#[trigger] list[i]) == id && list[i].pinned
}

/// The list before the final sort and cap of [`upsert`]: the other rows, then
/// the entry, pinned if it was or if a row it replaces was.
pub open spec fn upsert_rows(list: Seq<RecentProject>, entry: RecentProject) -> Seq<RecentProject> {
    let id = row_id(entry);
    others(list, id).push(with_pin(entry, entry.pinned || pinned_with_id(list, id, list.len() as int)))
}

pub open spec fn upsert_spec(list: Seq<RecentProject>, entry: RecentProject) -> Seq<RecentProject> {
    cap_from(sort_spec(upsert_rows(list, entry)), 0)
}

/// Every row, with the pin flag of the rows of identity `id` set to `p`.
pub open spec fn repin(list: Seq<RecentProject>, id: Seq<char>, p: bool) -> Seq<RecentProject> {
    list.map_values(|e: RecentProject| if row_id(e) == id { with_pin(e, p) } else { e })
}

pub open spec fn set_pinned_spec(list: Seq<RecentProject>, id: Seq<char>, p: bool) -> Seq<RecentProject> {
    cap_from(sort_spec(repin(list, id, p)), 0)
}

/// Insert `entry` (or bump the existing row with the same identity), then sort
/// (pinned first, each group most-recent-first) and cap unpinned rows. A bump
/// inherits the prior row's pin state so recording an open never silently
/// unpins. `entry.last_opened` is taken as-is (caller stamps "now").
pub fn upsert(list: Vec<RecentProject>, entry: RecentProject) -> (r: Vec<RecentProject>)
    ensures
        r@ == upsert_spec(list@, entry),
{
    let mut list = list;
    let mut entry = entry;
    let ghost orig = list@;
    let ghost entry0 = entry;
    let id = identity(&entry.project_path, entry.install_path.as_str());
    let mut kept: Vec<RecentProject> = Vec::new();
    let mut pin = entry.pinned;
    let ghost mut k: int = 0;
    while list.len() > 0
        invariant
            0 <= k <= orig.len(),
            list@ == orig.skip(k),
            kept@ == orig.take(k).filter(not_id(id@)),
            id@ == row_id(entry0),
            pin == (entry0.pinned || pinned_with_id(orig, id@, k)),
        decreases list@.len(),
    {
        let e = list.remove(0);
        proof {
            assert(orig.take(k + 1) =~= orig.take(k).push(e));
            orig.take(k).lemma_filter_push(e, not_id(id@));
            assert(orig.skip(k).remove(0) =~= orig.skip(k + 1));
            assert(orig[k] == e);
        }
        let eid = identity(&e.project_path, e.install_path.as_str());
        if str_eq(eid.as_str(), id.as_str()) {
            pin = pin || e.pinned;
        } else {
            kept.push(e);
        }
        proof {
            k = k + 1;
        }
    }
    assert(orig.take(k) =~= orig);
    entry.pinned = pin;
    kept.push(entry);
    sort(&mut kept);
    cap(&mut kept);
    kept
}

/// Remove the rows with `project_path`/`install_path`'s identity, if present.
pub fn remove(list: Vec<RecentProject>, project_path: &Option<String>, install_path: &str) -> (r: Vec<RecentProject>)
    ensures
        r@ == others(list@, identity_spec(opt_view(*project_path), install_path@)),
{
    let mut list = list;
    let ghost orig = list@;
    let id = identity(project_path, install_path);
    let mut kept: Vec<RecentProject> = Vec::new();
    let ghost mut k: int = 0;
    while list.len() > 0
        invariant
            0 <= k <= orig.len(),
            list@ == orig.skip(k),
            kept@ == orig.take(k).filter(not_id(id@)),
        decreases list@.len(),
    {
        let e = list.remove(0);
        proof {
            assert(orig.take(k + 1) =~= orig.take(k).push(e));
            orig.take(k).lemma_filter_push(e, not_id(id@));
            assert(orig.skip(k).remove(0) =~= orig.skip(k + 1));
        }
        let eid = identity(&e.project_path, e.install_path.as_str());
        if !str_eq(eid.as_str(), id.as_str()) {
            kept.push(e);
        }
        proof {
            k = k + 1;
        }
    }
    assert(orig.take(k) =~= orig);
    kept
}

/// Set the pin flag on the matching rows, then re-sort and re-cap (pinning can
/// pull a row above the cap; unpinning can push it below).
pub fn set_pinned(list: Vec<RecentProject>, project_path: &Option<String>, install_path: &str, pinned: bool) -> (r: Vec<RecentProject>)
    ensures
        r@ == set_pinned_spec(list@, identity_spec(opt_view(*project_path), install_path@), pinned),
{
    let mut list = list;
    let ghost orig = list@;
    let id = identity(project_path, install_path);
    let mut out: Vec<RecentProject> = Vec::new();
    let ghost mut k: int = 0;
    while list.len() > 0
        invariant
            0 <= k <= orig.len(),
            list@ == orig.skip(k),
            out@ == repin(orig.take(k), id@, pinned),
        decreases list@.len(),
    {
        let mut e = list.remove(0);
        proof {
            assert(orig.skip(k).remove(0) =~= orig.skip(k + 1));
        }
        let ghost e0 = e;
        let eid = identity(&e.project_path, e.install_path.as_str());
        if str_eq(eid.as_str(), id.as_str()) {
            e.pinned = pinned;
        }
        out.push(e);
        proof {
            assert(repin(orig.take(k + 1), id@, pinned) =~= repin(orig.take(k), id@, pinned).push(
                if row_id(e0) == id@ { with_pin(e0, pinned) } else { e0 },
            ));
            k = k + 1;
        }
    }
    assert(orig.take(k) =~= orig);
    sort(&mut out);
    cap(&mut out);
    out
}

// ---------------------------------------------------------------------------
// Laws
// ---------------------------------------------------------------------------

proof fn lemma_unpinned_push(s: Seq<RecentProject>, x: RecentProject)
    ensures
        unpinned_count(s.push(x)) == unpinned_count(s) + if x.pinned { 0nat } else { 1nat },
    decreases s.len(),
{
    if s.len() > 0 {
        lemma_unpinned_push(s.skip(1), x);
        assert(s.push(x).skip(1) =~= s.skip(1).push(x));
        assert(s.push(x)[0] == s[0]);
    } else {
        let e = Seq::<RecentProject>::empty();
        assert(s.push(x).skip(1) =~= e);
        assert(s.push(x)[0] == x);
        assert(unpinned_count(e) == 0);
        assert(unpinned_count(s) == 0);
    }
}

proof fn lemma_filter_keeps(s: Seq<RecentProject>, id: Seq<char>)
    ensures
        forall|i: int| 0 <= i < others(s, id).len() ==> s.contains(#[trigger] others(s, id)[i]) && row_id(others(s, id)[i]) != id,
        is_sorted(s) ==> is_sorted(others(s, id)),
        ids_unique(s) ==> ids_unique(others(s, id)),
        unpinned_count(others(s, id)) <= unpinned_count(s),
    decreases s.len(),
{
    if s.len() > 0 {
        let init = s.drop_last();
        let x = s.last();
        lemma_filter_keeps(init, id);
        let t = others(init, id);
        assert(init.push(x) =~= s);
        init.lemma_filter_push(x, not_id(id));
        lemma_unpinned_push(init, x);
        assert forall|i: int| 0 <= i < t.len() implies s.contains(#[trigger] t[i]) by {
            let m = choose|m: int| 0 <= m < init.len() && init[m] == t[i];
            assert(s[m] == init[m]);
        }
        if row_id(x) != id {
            let r = t.push(x);
            lemma_unpinned_push(t, x);
            assert forall|i: int| 0 <= i < r.len() implies s.contains(#[trigger] r[i]) && row_id(r[i]) != id by {
                if i < t.len() {
                    assert(r[i] == t[i]);
                } else {
                    assert(s[s.len() - 1] == x);
                }
            }
            if is_sorted(s) {
                assert(is_sorted(init)) by {
                    assert forall|i: int, j: int| 0 <= i < j < init.len() implies !goes_before(#[trigger] init[j], #[trigger] init[i]) by {
                        assert(init[i] == s[i] && init[j] == s[j]);
                    }
                }
                assert forall|i: int, j: int| 0 <= i < j < r.len() implies !goes_before(#[trigger] r[j], #[trigger] r[i]) by {
                    if j == t.len() {
                        let m = choose|m: int| 0 <= m < init.len() && init[m] == t[i];
                        assert(s[m] == init[m]);
                        assert(r[j] == s[s.len() - 1]);
                    } else {
                        assert(r[i] == t[i] && r[j] == t[j]);
                    }
                }
            }
            if ids_unique(s) {
                assert(ids_unique(init)) by {
                    assert forall|i: int, j: int| 0 <= i < j < init.len() implies row_id(#[trigger] init[i]) != row_id(#[trigger] init[j]) by {
                        assert(init[i] == s[i] && init[j] == s[j]);
                    }
                }
                assert forall|i: int, j: int| 0 <= i < j < r.len() implies row_id(#[trigger] r[i]) != row_id(#[trigger] r[j]) by {
                    if j == t.len() {
                        let m = choose|m: int| 0 <= m < init.len() && init[m] == t[i];
                        assert(s[m] == init[m]);
                        assert(r[j] == s[s.len() - 1]);
                    } else {
                        assert(r[i] == t[i] && r[j] == t[j]);
                    }
                }
            }
        } else {
            if is_sorted(s) {
                assert(is_sorted(init)) by {
                    assert forall|i: int, j: int| 0 <= i < j < init.len() implies !goes_before(#[trigger] init[j], #[trigger] init[i]) by {
                        assert(init[i] == s[i] && init[j] == s[j]);
                    }
                }
            }
            if ids_unique(s) {
                assert(ids_unique(init)) by {
                    assert forall|i: int, j: int| 0 <= i < j < init.len() implies row_id(#[trigger] init[i]) != row_id(#[trigger] init[j]) by {
                        assert(init[i] == s[i] && init[j] == s[j]);
                    }
                }
            }
        }
    }
}

/// What recording an open keeps: the result is in display order, holds at
/// most [`MAX_UNPINNED`] unpinned rows, keeps every pinned row of the
/// bumped list, and — reopening the same identity bumps in place instead of
/// adding a duplicate — has distinct identities whenever the list had.
pub proof fn lemma_upsert_laws(list: Seq<RecentProject>, entry: RecentProject)
    ensures
        is_sorted(upsert_spec(list, entry)),
        unpinned_count(upsert_spec(list, entry)) <= MAX_UNPINNED,
        forall|x: RecentProject| x.pinned ==> #[trigger] upsert_spec(list, entry).to_multiset().count(x) == upsert_rows(list, entry).to_multiset().count(x),
        ids_unique(list) ==> ids_unique(upsert_spec(list, entry)),
{
    let id = row_id(entry);
    let rows = upsert_rows(list, entry);
    let t = others(list, id);
    lemma_filter_keeps(list, id);
    lemma_sort_spec(rows);
    lemma_cap(sort_spec(rows));
    if ids_unique(list) {
        assert forall|i: int, j: int| 0 <= i < j < rows.len() implies row_id(#[trigger] rows[i]) != row_id(#[trigger] rows[j]) by {
            if j == t.len() {
                assert(rows[i] == t[i]);
            } else {
                assert(rows[i] == t[i] && rows[j] == t[j]);
            }
        }
    }
}

proof fn lemma_no_unpinned(s: Seq<RecentProject>)
    requires
        unpinned_count(s) == 0,
    ensures
        forall|i: int| 0 <= i < s.len() ==> (#[trigger] s[i]).pinned,
    decreases s.len(),
{
    if s.len() > 0 {
        lemma_no_unpinned(s.skip(1));
        assert forall|i: int| 0 <= i < s.len() implies (#[trigger] s[i]).pinned by {
            if i > 0 {
                assert(s[i] == s.skip(1)[i - 1]);
            }
        }
    }
}

/// Capping a list in display order drops only the oldest unpinned rows.
proof fn lemma_cap_drops_oldest(s: Seq<RecentProject>, seen: nat)
    requires
        is_sorted(s),
    ensures
        forall|x: RecentProject, y: RecentProject|
            cap_from(s, seen).contains(x) && !x.pinned && s.contains(y) && !y.pinned && !cap_from(s, seen).contains(y)
                ==> x.last_opened >= y.last_opened,
    decreases s.len(),
{
    if s.len() > 0 {
        let rest = s.skip(1);
        let next: nat = if s[0].pinned { seen } else { seen + 1 };
        assert(is_sorted(rest)) by {
            assert forall|i: int, j: int| 0 <= i < j < rest.len() implies !goes_before(#[trigger] rest[j], #[trigger] rest[i]) by {
                assert(rest[i] == s[i + 1] && rest[j] == s[j + 1]);
            }
        }
        lemma_cap_drops_oldest(rest, next);
        lemma_cap_from(rest, next);
        let c = cap_from(s, seen);
        let cr = cap_from(rest, next);
        assert forall|x: RecentProject, y: RecentProject|
            c.contains(x) && !x.pinned && s.contains(y) && !y.pinned && !c.contains(y)
                implies x.last_opened >= y.last_opened by {
            let k = choose|k: int| 0 <= k < s.len() && s[k] == y;
            if !s[0].pinned && seen >= MAX_UNPINNED {
                assert(c == cr);
                lemma_no_unpinned(cr);
                let m = choose|m: int| 0 <= m < cr.len() && cr[m] == x;
                assert(cr[m].pinned);
            } else {
                assert(c =~= seq![s[0]] + cr);
                assert(c[0] == s[0]);
                assert(k != 0);
                assert(rest[k - 1] == y);
                assert(!cr.contains(y)) by {
                    if cr.contains(y) {
                        let m = choose|m: int| 0 <= m < cr.len() && cr[m] == y;
                        assert(c[m + 1] == y);
                    }
                }
                if x == s[0] {
                    assert(!goes_before(s[k], s[0]));
                } else {
                    let m = choose|m: int| 0 <= m < c.len() && c[m] == x;
                    assert(m != 0);
                    assert(cr[m - 1] == x);
                    assert(cr.contains(x));
                    assert(rest.contains(y));
                }
            }
        }
    }
}

/// What recording an open keeps of the rows and of the entry: the entry
/// comes back with its pin flag merged (pinned if it was, or if the row it
/// replaces was), it is kept whenever that flag is set, it is the only row of
/// its identity, and no kept unpinned row is older than a dropped unpinned one.
pub proof fn lemma_upsert_entry_laws(list: Seq<RecentProject>, entry: RecentProject)
    ensures
        ({
            let id = row_id(entry);
            let merged = with_pin(entry, entry.pinned || pinned_with_id(list, id, list.len() as int));
            let r = upsert_spec(list, entry);
            &&& merged.pinned ==> r.contains(merged)
            &&& forall|x: RecentProject| r.contains(x) && row_id(x) == id ==> x == merged
            &&& forall|x: RecentProject| r.contains(x) ==> upsert_rows(list, entry).contains(x)
            &&& forall|x: RecentProject, y: RecentProject|
                r.contains(x) && !x.pinned && upsert_rows(list, entry).contains(y) && !y.pinned && !r.contains(y)
                    ==> x.last_opened >= y.last_opened
        }),
{
    broadcast use vstd::seq_lib::group_to_multiset_ensures;
    let id = row_id(entry);
    let merged = with_pin(entry, entry.pinned || pinned_with_id(list, id, list.len() as int));
    let rows = upsert_rows(list, entry);
    let t = others(list, id);
    let srt = sort_spec(rows);
    let r = upsert_spec(list, entry);
    lemma_filter_keeps(list, id);
    lemma_sort_spec(rows);
    lemma_cap_from(srt, 0);
    lemma_cap_drops_oldest(srt, 0);
    assert(rows[rows.len() - 1] == merged);
    assert(rows.contains(merged));
    assert forall|x: RecentProject| srt.contains(x) <==> rows.contains(x) by {
        vstd::seq_lib::to_multiset_contains(srt, x);
        vstd::seq_lib::to_multiset_contains(rows, x);
    }
    assert forall|x: RecentProject| r.contains(x) implies rows.contains(x) by {
        let m = choose|m: int| 0 <= m < r.len() && r[m] == x;
        assert(srt.contains(r[m]));
    }
    if merged.pinned {
        assert(r.to_multiset().count(merged) == srt.to_multiset().count(merged));
        assert(srt.contains(merged));
        vstd::seq_lib::to_multiset_contains(srt, merged);
        vstd::seq_lib::to_multiset_contains(r, merged);
    }
    assert forall|x: RecentProject| r.contains(x) && row_id(x) == id implies x == merged by {
        assert(rows.contains(x));
        let m = choose|m: int| 0 <= m < rows.len() && rows[m] == x;
        if m < t.len() {
            assert(rows[m] == t[m]);
        }
    }
}

/// What pinning keeps: the result is in display order, holds at most
/// [`MAX_UNPINNED`] unpinned rows, keeps every pinned row (so a row just
/// pinned is never capped away), and keeps identities distinct.
pub proof fn lemma_set_pinned_laws(list: Seq<RecentProject>, id: Seq<char>, p: bool)
    ensures
        is_sorted(set_pinned_spec(list, id, p)),
        unpinned_count(set_pinned_spec(list, id, p)) <= MAX_UNPINNED,
        forall|x: RecentProject| x.pinned ==> #[trigger] set_pinned_spec(list, id, p).to_multiset().count(x) == repin(list, id, p).to_multiset().count(x),
        ids_unique(list) ==> ids_unique(set_pinned_spec(list, id, p)),
{
    let rows = repin(list, id, p);
    lemma_sort_spec(rows);
    lemma_cap(sort_spec(rows));
    if ids_unique(list) {
        assert forall|i: int, j: int| 0 <= i < j < rows.len() implies row_id(#[trigger] rows[i]) != row_id(#[trigger] rows[j]) by {
            assert(row_id(rows[i]) == row_id(list[i]));
            assert(row_id(rows[j]) == row_id(list[j]));
        }
    }
}

/// What removing keeps: no row of the identity is left, and a list in
/// display order, within the cap and with distinct identities stays so.
pub proof fn lemma_remove_laws(list: Seq<RecentProject>, id: Seq<char>)
    ensures
        forall|i: int| 0 <= i < others(list, id).len() ==> row_id(#[trigger] others(list, id)[i]) != id,
        is_sorted(list) ==> is_sorted(others(list, id)),
        ids_unique(list) ==> ids_unique(others(list, id)),
        unpinned_count(others(list, id)) <= unpinned_count(list),
{
    lemma_filter_keeps(list, id);
}

// ---------------------------------------------------------------------------
// Missing flags and display names
// ---------------------------------------------------------------------------

/// The row's `missing` flag from the filesystem checks made for it: a project
/// row is missing if its folder is no longer a mod project; any row is missing
/// if its install path is no longer a valid installation.
pub open spec fn missing_flag(e: RecentProject, install_ok: bool, project_ok: bool) -> bool {
    !install_ok || (e.project_path is Some && !project_ok)
}

/// `e` with its `missing` flag set to `m`.
pub open spec fn with_missing(e: RecentProject, m: bool) -> RecentProject {
    RecentProject { missing: m, ..e }
}

/// What flagging a row means: a row whose install check fails is missing
/// whatever its project check says; a project row whose project check fails
/// is missing; any other row (install still valid, and no project or a
/// project still valid) is not. Flagging changes nothing but the flag.
pub proof fn lemma_missing_flag(e: RecentProject, install_ok: bool, project_ok: bool)
    ensures
        !install_ok ==> missing_flag(e, install_ok, project_ok),
        e.project_path is Some && !project_ok ==> missing_flag(e, install_ok, project_ok),
        install_ok && (e.project_path is None || project_ok) ==> !missing_flag(e, install_ok, project_ok),
        with_missing(e, missing_flag(e, install_ok, project_ok)) == (RecentProject {
            missing: !install_ok || (e.project_path is Some && !project_ok),
            ..e
        }),
{
}

/// Refreshes each row's `missing` flag from the checks made for it
/// (`install_ok[i]`, and `project_ok[i]`, which only project rows consult).
pub fn annotate_missing(list: &mut Vec<RecentProject>, install_ok: &[bool], project_ok: &[bool])
    requires
        old(list)@.len() == install_ok@.len(),
        old(list)@.len() == project_ok@.len(),
    ensures
        final(list)@.len() == old(list)@.len(),
        forall|i: int| 0 <= i < old(list)@.len() ==> #[trigger] final(list)@[i] == with_missing(
            old(list)@[i],
            missing_flag(old(list)@[i], install_ok@[i], project_ok@[i]),
        ),
{
    let mut rest: Vec<RecentProject> = Vec::new();
    std::mem::swap(&mut rest, list);
    let ghost orig = rest@;
    let mut i: usize = 0;
    while rest.len() > 0
        invariant
            i + rest@.len() == orig.len(),
            orig.len() == install_ok@.len(),
            orig.len() == project_ok@.len(),
            rest@ == orig.skip(i as int),
            list@.len() == i,
            forall|j: int| 0 <= j < i ==> #[trigger] list@[j] == with_missing(
                orig[j],
                missing_flag(orig[j], install_ok@[j], project_ok@[j]),
            ),
        decreases rest@.len(),
    {
        let mut e = rest.remove(0);
        proof {
            assert(orig.skip(i as int).remove(0) =~= orig.skip(i + 1));
        }
        let has_project = e.project_path.is_some();
        e.missing = !install_ok[i] || (has_project && !project_ok[i]);
        list.push(e);
        i = i + 1;
    }
}

/// Whether the text holds a char other than whitespace (`!s.trim().is_empty()`).
pub open spec fn has_non_ws(s: Seq<char>) -> bool {
    exists|i: int| 0 <= i < s.len() && !is_uni_ws(#[trigger] s[i])
}

/// The descriptor's `name`, unless it is blank.
pub open spec fn descriptor_name(descriptor: Seq<char>) -> Option<Seq<char>> {
    match scalar_of(crate::paradox::parse_spec(descriptor), "name"@) {
        Some(n) => if has_non_ws(n) { Some(n) } else { None },
        None => None,
    }
}

/// The descriptor's non-blank `name`, when the descriptor could be read.
pub open spec fn named(descriptor: Option<Seq<char>>) -> Option<Seq<char>> {
    match descriptor {
        Some(d) => descriptor_name(d),
        None => None,
    }
}

/// Display name for a recorded session, given the project's descriptor text
/// (when it could be read) and its folder name (when the path has one).
pub open spec fn display_name_spec(
    project_path: Option<Seq<char>>,
    install_path: Seq<char>,
    descriptor: Option<Seq<char>>,
    folder: Option<Seq<char>>,
) -> Seq<char> {
    match project_path {
        None => "Base game @ "@ + install_path,
        Some(p) => match named(descriptor) {
            Some(n) => n,
            None => match folder {
                Some(f) => f,
                None => p,
            },
        },
    }
}

fn non_blank(s: &str) -> (r: bool)
    ensures
        r == has_non_ws(s@),
{
    let cs = chars_of(s);
    let mut i: usize = 0;
    while i < cs.len()
        invariant
            cs@ == s@,
            i <= cs@.len(),
            forall|j: int| 0 <= j < i ==> is_uni_ws(#[trigger] cs@[j]),
        decreases cs@.len() - i,
    {
        if !is_uni_ws_exec(cs[i]) {
            return true;
        }
        i = i + 1;
    }
    false
}

/// The final component of the path `p`, as `Path::file_name` reads it.
/// Nothing is stated of the result: how a path splits into components
/// depends on the platform's separators.
#[verifier::external_body]
pub(crate) fn folder_name(p: &str) -> (r: Option<String>) {
    match std::path::Path::new(p).file_name() {
        Some(n) => Some(n.to_string_lossy().into_owned()),
        None => None,
    }
}

/// Display name for a recorded session from the descriptor text and folder
/// name: base sessions read "Base game @ <install>"; project sessions use the
/// descriptor `name`, falling back to the folder name, then the path itself.
pub fn display_name_with(
    project_path: &Option<String>,
    install_path: &str,
    descriptor: Option<String>,
    folder: Option<String>,
) -> (r: String)
    ensures
        r@ == display_name_spec(opt_view(*project_path), install_path@, opt_view(descriptor), opt_view(folder)),
{
    match project_path {
        None => {
            let mut s = String::from_str("Base game @ ");
            s.append(install_path);
            s
        },
        Some(p) => {
            let named: Option<String> = match &descriptor {
                Some(text) => {
                    let b = parse(text.as_str());
                    match b.get_scalar("name") {
                        Some(n) => if non_blank(n) {
                            Some(n.to_string())
                        } else {
                            None
                        },
                        None => None,
                    }
                },
                None => None,
            };
            match named {
                Some(n) => n,
                None => match folder {
                    Some(f) => f,
                    None => p.clone(),
                },
            }
        },
    }
}

/// Display name for a recorded session, given the project's descriptor text
/// when it could be read: the folder name comes from the path itself.
pub fn display_name(project_path: &Option<String>, install_path: &str, descriptor: Option<String>) -> (r: String)
    ensures
        project_path is None ==> r@ == "Base game @ "@ + install_path@,
        project_path is Some && named(opt_view(descriptor)) is Some ==> r@ == named(opt_view(descriptor))->0,
        exists|f: Option<Seq<char>>| r@ == #[trigger] display_name_spec(opt_view(*project_path), install_path@, opt_view(descriptor), f),
{
    let folder = match project_path {
        Some(p) => folder_name(p.as_str()),
        None => None,
    };
    let ghost fv = opt_view(folder);
    let r = display_name_with(project_path, install_path, descriptor, folder);
    assert(r@ == display_name_spec(opt_view(*project_path), install_path@, opt_view(descriptor), fv));
    r
}

} // verus!
