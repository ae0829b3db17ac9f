//! Mod metadata: the `descriptor.mod` file that names a mod, its version, the
//! game version it supports, its tags and the base folders it replaces.
//!
//! The descriptor format is a minimal Paradox dialect: `key="value"` pairs,
//! `key=value` bare values, and `key={ "a" "b" }` lists that may span lines,
//! with `#` comments. Reading the folder and the descriptor file is the
//! caller's part; this module reads the descriptor text.

use vstd::prelude::*;
use crate::script_tree::{is_uni_ws, is_uni_ws_exec};
use crate::mechanics::{lemma_insert_sorted, lex_less, lex_lt, sorted_by_key};
use crate::recents::{folder_name, to_lowercase, unicode_lower};
use crate::text::{chars_of, opt_view, str_eq, string_from_chars, strings_of};

verus! {

/// What the toolkit knows about an opened mod folder.
#[derive(Debug)]
pub struct ModInfo {
    pub path: String,
    pub name: String,
    pub version: Option<String>,
    pub supported_version: Option<String>,
    pub tags: Vec<String>,
    pub replace_paths: Vec<String>,
    pub has_descriptor: bool,
    pub directories: Vec<String>,
    pub files: Vec<String>,
}

/// A descriptor value: a single string, or a `{ "a" "b" }` list.
#[derive(Debug)]
pub enum DescValue {
    Scalar(String),
    List(Vec<String>),
}

/// The spec view of a descriptor value.
pub enum DescView {
    Scalar(Seq<char>),
    List(Seq<Seq<char>>),
}

impl DescValue {
    pub open spec fn dview(&self) -> DescView {
        match self {
            DescValue::Scalar(s) => DescView::Scalar(s@),
            DescValue::List(v) => DescView::List(strings_of(v@)),
        }
    }
}

pub open spec fn pairs_view(v: Seq<(String, DescValue)>) -> Seq<(Seq<char>, DescView)> {
    v.map_values(|p: (String, DescValue)| (p.0@, p.1.dview()))
}

/// What `char::is_alphanumeric` says of `c` (Unicode Alphabetic or Numeric).
pub uninterp spec fn is_alnum(c: char) -> bool;

/// `char::is_alphanumeric`.
#[verifier::external_body]
fn alnum(c: char) -> (r: bool)
    ensures
        r == is_alnum(c),
{
    c.is_alphanumeric()
}

/// A char that may stand in a descriptor key.
pub open spec fn is_key_char(c: char) -> bool {
    is_alnum(c) || c == '_'
}

/// First index at or after `i` whose char fails `p`, else the length.
pub open spec fn key_end(cs: Seq<char>, i: int) -> int
    decreases cs.len() - i,
{
    if i < 0 || i >= cs.len() || !is_key_char(cs[i]) {
        i
    } else {
        key_end(cs, i + 1)
    }
}

/// First index at or after `i` that is not whitespace, else the length.
pub open spec fn skip_ws(cs: Seq<char>, i: int) -> int
    decreases cs.len() - i,
{
    if i < 0 || i >= cs.len() || !is_uni_ws(cs[i]) {
        i
    } else {
        skip_ws(cs, i + 1)
    }
}

/// First index at or after `i` that is whitespace, else the length.
pub open spec fn word_end(cs: Seq<char>, i: int) -> int
    decreases cs.len() - i,
{
    if i < 0 || i >= cs.len() || is_uni_ws(cs[i]) {
        i
    } else {
        word_end(cs, i + 1)
    }
}

/// First index at or after `i` holding `c`, else the length.
pub open spec fn find_from(cs: Seq<char>, c: char, i: int) -> int
    decreases cs.len() - i,
{
    if i < 0 || i >= cs.len() || cs[i] == c {
        i
    } else {
        find_from(cs, c, i + 1)
    }
}

pub proof fn lemma_scans(cs: Seq<char>, i: int)
    requires
        0 <= i <= cs.len(),
    ensures
        i <= key_end(cs, i) <= cs.len(),
        i <= skip_ws(cs, i) <= cs.len(),
        i <= word_end(cs, i) <= cs.len(),
    decreases cs.len() - i,
{
    if i < cs.len() {
        lemma_scans(cs, i + 1);
    }
}

pub proof fn lemma_find(cs: Seq<char>, c: char, i: int)
    requires
        0 <= i <= cs.len(),
    ensures
        i <= find_from(cs, c, i) <= cs.len(),
        find_from(cs, c, i) < cs.len() ==> cs[find_from(cs, c, i)] == c,
        forall|k: int| i <= k < find_from(cs, c, i) ==> cs[k] != c,
    decreases cs.len() - i,
{
    if i < cs.len() && cs[i] != c {
        lemma_find(cs, c, i + 1);
    }
}

/// The quoted text opened just before `i`: the chars up to the closing quote
/// (or the end), and the index after the closing quote.
pub open spec fn quoted_at(cs: Seq<char>, i: int) -> (Seq<char>, int) {
    let q = find_from(cs, '"', i);
    (cs.subrange(i, q), if q < cs.len() { q + 1 } else { q })
}

/// The quoted items of a `{ … }` list opened just before `p`, and the index
/// after its `}` (or the end). Anything but quotes and `}` is skipped.
pub open spec fn list_from(cs: Seq<char>, p: int) -> (Seq<Seq<char>>, int)
    decreases cs.len() - p,
{
    if p < 0 || p >= cs.len() {
        (Seq::empty(), p)
    } else if cs[p] == '}' {
        (Seq::empty(), p + 1)
    } else if cs[p] == '"' {
        proof {
            lemma_find(cs, '"', p + 1);
        }
        let (s, after) = quoted_at(cs, p + 1);
        let (rest, end) = list_from(cs, after);
        (seq![s] + rest, end)
    } else {
        list_from(cs, p + 1)
    }
}

/// The `key = value` pairs of a descriptor from index `i` on.
pub open spec fn pairs_from(cs: Seq<char>, i: int) -> Seq<(Seq<char>, DescView)>
    decreases cs.len() - i, 1int,
{
    if i < 0 || i >= cs.len() {
        Seq::empty()
    } else if is_uni_ws(cs[i]) {
        pairs_from(cs, i + 1)
    } else if cs[i] == '#' {
        proof {
            lemma_find(cs, '\n', i + 1);
        }
        pairs_from(cs, find_from(cs, '\n', i))
    } else {
        proof {
            lemma_scans(cs, i);
        }
        let ke = key_end(cs, i);
        if ke == i {
            pairs_from(cs, i + 1)
        } else {
            proof {
                lemma_scans(cs, ke);
            }
            let j = skip_ws(cs, ke);
            if j >= cs.len() || cs[j] != '=' {
                pairs_from(cs, j)
            } else {
                proof {
                    lemma_scans(cs, j + 1);
                }
                let k = skip_ws(cs, j + 1);
                let key = cs.subrange(i, ke);
                if k < cs.len() && cs[k] == '"' {
                    proof {
                        lemma_find(cs, '"', k + 1);
                    }
                    let (s, after) = quoted_at(cs, k + 1);
                    seq![(key, DescView::Scalar(s))] + pairs_from(cs, after)
                } else if k < cs.len() && cs[k] == '{' {
                    proof {
                        lemma_list_from(cs, k + 1);
                    }
                    let (items, after) = list_from(cs, k + 1);
                    seq![(key, DescView::List(items))] + pairs_from(cs, after)
                } else {
                    proof {
                        lemma_scans(cs, k);
                    }
                    let e = word_end(cs, k);
                    seq![(key, DescView::Scalar(cs.subrange(k, e)))] + pairs_from(cs, e)
                }
            }
        }
    }
}

pub proof fn lemma_list_from(cs: Seq<char>, p: int)
    requires
        0 <= p <= cs.len(),
    ensures
        p <= list_from(cs, p).1 <= cs.len(),
    decreases cs.len() - p,
{
    if p < cs.len() && cs[p] != '}' {
        if cs[p] == '"' {
            lemma_find(cs, '"', p + 1);
            lemma_list_from(cs, quoted_at(cs, p + 1).1);
        } else {
            lemma_list_from(cs, p + 1);
        }
    }
}

// ---------------------------------------------------------------------------
// Reading
// ---------------------------------------------------------------------------

fn scan_key_end(cs: &[char], i: usize) -> (r: usize)
    requires
        i <= cs@.len(),
    ensures
        r as int == key_end(cs@, i as int),
{
    let mut j = i;
    while j < cs.len() && (alnum(cs[j]) || cs[j] == '_')
        invariant
            i <= j <= cs@.len(),
            key_end(cs@, j as int) == key_end(cs@, i as int),
        decreases cs@.len() - j,
    {
        j = j + 1;
    }
    j
}

fn scan_skip_ws(cs: &[char], i: usize) -> (r: usize)
    requires
        i <= cs@.len(),
    ensures
        r as int == skip_ws(cs@, i as int),
{
    let mut j = i;
    while j < cs.len() && is_uni_ws_exec(cs[j])
        invariant
            i <= j <= cs@.len(),
            skip_ws(cs@, j as int) == skip_ws(cs@, i as int),
        decreases cs@.len() - j,
    {
        j = j + 1;
    }
    j
}

fn scan_word_end(cs: &[char], i: usize) -> (r: usize)
    requires
        i <= cs@.len(),
    ensures
        r as int == word_end(cs@, i as int),
{
    let mut j = i;
    while j < cs.len() && !is_uni_ws_exec(cs[j])
        invariant
            i <= j <= cs@.len(),
            word_end(cs@, j as int) == word_end(cs@, i as int),
        decreases cs@.len() - j,
    {
        j = j + 1;
    }
    j
}

fn scan_find(cs: &[char], c: char, i: usize) -> (r: usize)
    requires
        i <= cs@.len(),
    ensures
        r as int == find_from(cs@, c, i as int),
{
    let mut j = i;
    while j < cs.len() && cs[j] != c
        invariant
            i <= j <= cs@.len(),
            find_from(cs@, c, j as int) == find_from(cs@, c, i as int),
        decreases cs@.len() - j,
    {
        j = j + 1;
    }
    j
}

/// The quoted text opened just before `i`, and the index after it.
fn read_quoted(cs: &[char], i: usize) -> (r: (String, usize))
    requires
        i <= cs@.len(),
    ensures
        r.0@ == quoted_at(cs@, i as int).0,
        r.1 as int == quoted_at(cs@, i as int).1,
{
    proof {
        lemma_find(cs@, '"', i as int);
    }
    let q = scan_find(cs, '"', i);
    let s = string_from_chars(&cs[i..q]);
    assert(cs@.subrange(i as int, q as int) =~= cs@.subrange(i as int, q as int));
    (s, if q < cs.len() { q + 1 } else { q })
}

/// The quoted items of the list opened just before `p`, and the index after it.
fn read_list(cs: &[char], p: usize) -> (r: (Vec<String>, usize))
    requires
        p <= cs@.len(),
    ensures
        strings_of(r.0@) == list_from(cs@, p as int).0,
        r.1 as int == list_from(cs@, p as int).1,
{
    let mut items: Vec<String> = Vec::new();
    let mut j = p;
    while j < cs.len() && cs[j] != '}'
        invariant
            p <= j <= cs@.len(),
            strings_of(items@) + list_from(cs@, j as int).0 == list_from(cs@, p as int).0,
            list_from(cs@, j as int).1 == list_from(cs@, p as int).1,
        decreases cs@.len() - j,
    {
        if cs[j] == '"' {
            let (s, after) = read_quoted(cs, j + 1);
            proof {
                lemma_find(cs@, '"', j + 1);
                assert(strings_of(items@.push(s)) =~= strings_of(items@).push(s@));
                assert(strings_of(items@.push(s)) + list_from(cs@, after as int).0 =~= strings_of(items@) + list_from(cs@, j as int).0);
            }
            items.push(s);
            j = after;
        } else {
            j = j + 1;
        }
    }
    if j < cs.len() {
        j = j + 1;
    }
    assert(strings_of(items@) + Seq::<Seq<char>>::empty() =~= strings_of(items@));
    (items, j)
}

/// Minimal parser for the Paradox descriptor format: `key="value"` pairs and
/// `key={ "a" "b" }` lists, where lists may span multiple lines.
pub fn parse_descriptor(text: &str) -> (r: Vec<(String, DescValue)>)
    ensures
        pairs_view(r@) == pairs_from(text@, 0),
{
    let cs = chars_of(text);
    let n = cs.len();
    let mut out: Vec<(String, DescValue)> = Vec::new();
    let mut i: usize = 0;
    while i < n
        invariant
            n == cs@.len(),
            cs@ == text@,
            i <= n,
            pairs_view(out@) + pairs_from(cs@, i as int) == pairs_from(cs@, 0),
        decreases n - i,
    {
        let ghost i0 = i;
        let ghost before = out@;
        let c = cs[i];
        if is_uni_ws_exec(c) {
            i = i + 1;
        } else if c == '#' {
            proof {
                lemma_find(cs@, '\n', i + 1);
            }
            i = scan_find(cs.as_slice(), '\n', i);
        } else {
            proof {
                lemma_scans(cs@, i as int);
            }
            let ke = scan_key_end(cs.as_slice(), i);
            if ke == i {
                i = i + 1;
            } else {
                proof {
                    lemma_scans(cs@, ke as int);
                }
                let j = scan_skip_ws(cs.as_slice(), ke);
                if j >= n || cs[j] != '=' {
                    i = j;
                } else {
                    proof {
                        lemma_scans(cs@, j + 1);
                    }
                    let k = scan_skip_ws(cs.as_slice(), j + 1);
                    let key = string_from_chars(&cs.as_slice()[i..ke]);
                    if k < n && cs[k] == '"' {
                        proof {
                            lemma_find(cs@, '"', k + 1);
                        }
                        let (s, after) = read_quoted(cs.as_slice(), k + 1);
                        out.push((key, DescValue::Scalar(s)));
                        i = after;
                    } else if k < n && cs[k] == '{' {
                        proof {
                            lemma_list_from(cs@, k + 1);
                        }
                        let (items, after) = read_list(cs.as_slice(), k + 1);
                        out.push((key, DescValue::List(items)));
                        i = after;
                    } else {
                        proof {
                            lemma_scans(cs@, k as int);
                        }
                        let e = scan_word_end(cs.as_slice(), k);
                        let v = string_from_chars(&cs.as_slice()[k..e]);
                        out.push((key, DescValue::Scalar(v)));
                        i = e;
                    }
                    proof {
                        assert(pairs_view(out@) =~= pairs_view(before).push(pairs_view(out@).last()));
                    }
                }
            }
        }
        assert(pairs_view(out@) + pairs_from(cs@, i as int) =~= pairs_from(cs@, 0));
    }
    out
}

// ---------------------------------------------------------------------------
// Applying a descriptor
// ---------------------------------------------------------------------------

/// The last scalar value written for `key`, if any.
pub open spec fn last_scalar(pairs: Seq<(Seq<char>, DescView)>, key: Seq<char>) -> Option<Seq<char>>
    decreases pairs.len(),
{
    if pairs.len() == 0 {
        None
    } else if pairs.last().0 == key && pairs.last().1 is Scalar {
        Some(pairs.last().1->Scalar_0)
    } else {
        last_scalar(pairs.drop_last(), key)
    }
}

/// The last list value written for `key`, if any.
pub open spec fn last_list(pairs: Seq<(Seq<char>, DescView)>, key: Seq<char>) -> Option<Seq<Seq<char>>>
    decreases pairs.len(),
{
    if pairs.len() == 0 {
        None
    } else if pairs.last().0 == key && pairs.last().1 is List {
        Some(pairs.last().1->List_0)
    } else {
        last_list(pairs.drop_last(), key)
    }
}

/// Every scalar value written for `key`, in order.
pub open spec fn all_scalars(pairs: Seq<(Seq<char>, DescView)>, key: Seq<char>) -> Seq<Seq<char>>
    decreases pairs.len(),
{
    if pairs.len() == 0 {
        Seq::empty()
    } else if pairs.last().0 == key && pairs.last().1 is Scalar {
        all_scalars(pairs.drop_last(), key).push(pairs.last().1->Scalar_0)
    } else {
        all_scalars(pairs.drop_last(), key)
    }
}

/// `old`, or the override when there is one.
pub open spec fn or_keep<T>(over: Option<T>, old: T) -> T {
    match over {
        Some(v) => v,
        None => old,
    }
}

/// `old`, or the override when there is one, as an option.
pub open spec fn or_keep_opt(over: Option<Seq<char>>, old: Option<Seq<char>>) -> Option<Seq<char>> {
    match over {
        Some(v) => Some(v),
        None => old,
    }
}

/// Fills `info` from the descriptor text: the last scalar `name`, `version`
/// and `supported_version` win, the last `tags` list wins, and every
/// `replace_path` is appended in order. Other keys, and values of the wrong
/// shape, are ignored.
pub fn apply_descriptor(info: &mut ModInfo, text: &str)
    ensures
        final(info).name@ == or_keep(last_scalar(pairs_from(text@, 0), "name"@), old(info).name@),
        opt_view(final(info).version) == or_keep_opt(last_scalar(pairs_from(text@, 0), "version"@), opt_view(old(info).version)),
        opt_view(final(info).supported_version) == or_keep_opt(
            last_scalar(pairs_from(text@, 0), "supported_version"@),
            opt_view(old(info).supported_version),
        ),
        strings_of(final(info).tags@) == or_keep(last_list(pairs_from(text@, 0), "tags"@), strings_of(old(info).tags@)),
        strings_of(final(info).replace_paths@) == strings_of(old(info).replace_paths@) + all_scalars(pairs_from(text@, 0), "replace_path"@),
        final(info).path == old(info).path,
        final(info).has_descriptor == old(info).has_descriptor,
        final(info).directories == old(info).directories,
        final(info).files == old(info).files,
{
    let mut pairs = parse_descriptor(text);
    let ghost all = pairs_view(pairs@);
    let ghost k: int = 0;
    let ghost name0 = info.name@;
    let ghost version0 = opt_view(info.version);
    let ghost sv0 = opt_view(info.supported_version);
    let ghost tags0 = strings_of(info.tags@);
    let ghost rp0 = strings_of(info.replace_paths@);
    let ghost path0 = info.path;
    let ghost dirs0 = info.directories;
    let ghost files0 = info.files;
    let ghost hd0 = info.has_descriptor;
    let mut k: usize = 0;
    let n = pairs.len();
    while pairs.len() > 0
        invariant
            k + pairs@.len() == n,
            n == all.len(),
            pairs_view(pairs@) == all.skip(k as int),
            info.name@ == or_keep(last_scalar(all.take(k as int), "name"@), name0),
            opt_view(info.version) == or_keep_opt(last_scalar(all.take(k as int), "version"@), version0),
            opt_view(info.supported_version) == or_keep_opt(last_scalar(all.take(k as int), "supported_version"@), sv0),
            strings_of(info.tags@) == or_keep(last_list(all.take(k as int), "tags"@), tags0),
            strings_of(info.replace_paths@) == rp0 + all_scalars(all.take(k as int), "replace_path"@),
            info.path == path0,
            info.has_descriptor == hd0,
            info.directories == dirs0,
            info.files == files0,
        decreases pairs@.len(),
    {
        let ghost pv = pairs@;
        let (key, value) = pairs.remove(0);
        proof {
            assert(all.take(k + 1) =~= all.take(k as int).push(all[k as int]));
            assert(all[k as int] == (key@, value.dview())) by {
                assert(pairs_view(pv)[0] == all.skip(k as int)[0]);
            }
            assert(all.take(k + 1).drop_last() == all.take(k as int));
            assert(pairs_view(pairs@) =~= all.skip(k + 1)) by {
                assert(pairs@ =~= pv.subrange(1, pv.len() as int));
                assert(pairs_view(pv.subrange(1, pv.len() as int)) =~= pairs_view(pv).subrange(1, pv.len() as int));
            }
        }
        let is_name = str_eq(key.as_str(), "name");
        let is_version = str_eq(key.as_str(), "version");
        let is_sv = str_eq(key.as_str(), "supported_version");
        let is_tags = str_eq(key.as_str(), "tags");
        let is_rp = str_eq(key.as_str(), "replace_path");
        proof {
            reveal_strlit("name");
            reveal_strlit("version");
            reveal_strlit("supported_version");
            reveal_strlit("tags");
            reveal_strlit("replace_path");
            assert("name"@.len() == 4 && "version"@.len() == 7 && "supported_version"@.len() == 17);
            assert("tags"@.len() == 4 && "replace_path"@.len() == 12);
            assert("name"@ != "tags"@) by {
                assert("name"@[0] != "tags"@[0]);
            }
        }
        match value {
            DescValue::Scalar(s) => {
                if is_name {
                    info.name = s;
                } else if is_version {
                    info.version = Some(s);
                } else if is_sv {
                    info.supported_version = Some(s);
                } else if is_rp {
                    let ghost before = info.replace_paths@;
                    info.replace_paths.push(s);
                    proof {
                        assert(strings_of(info.replace_paths@) =~= strings_of(before).push(s@));
                    }
                }
            },
            DescValue::List(items) => {
                if is_tags {
                    info.tags = items;
                }
            },
        }
        k = k + 1;
    }
    proof {
        assert(all.take(n as int) =~= all);
    }
}

// ---------------------------------------------------------------------------
// Assembling a mod's info
// ---------------------------------------------------------------------------

/// First index at or after `j` whose lower-cased text the lower-cased `x`
/// sorts strictly before (else the length): where a stable sort by
/// lower-cased text places `x` after `t`.
pub open spec fn lower_slot_from(t: Seq<Seq<char>>, x: Seq<char>, j: int) -> int
    decreases t.len() - j,
{
    if j < 0 || j >= t.len() {
        t.len() as int
    } else if lex_lt(unicode_lower(x), unicode_lower(t[j])) {
        j
    } else {
        lower_slot_from(t, x, j + 1)
    }
}

/// The names sorted by their lower-cased text (stably).
pub open spec fn sort_by_lower(s: Seq<Seq<char>>) -> Seq<Seq<char>>
    decreases s.len(),
{
    if s.len() == 0 {
        s
    } else {
        let t = sort_by_lower(s.drop_last());
        t.insert(lower_slot_from(t, s.last(), 0), s.last())
    }
}

/// The names sorted by their lower-cased text; names whose lower-cased
/// texts are equal keep their order.
pub fn sorted_by_lower(names: Vec<String>) -> (r: Vec<String>)
    ensures
        strings_of(r@) == sort_by_lower(strings_of(names@)),
{
    let ghost all = strings_of(names@);
    let mut rest = names;
    let mut out: Vec<String> = Vec::new();
    let ghost mut n: int = 0;
    assert(all.skip(0) =~= all);
    while rest.len() > 0
        invariant
            0 <= n <= all.len(),
            strings_of(rest@) == all.skip(n),
            strings_of(out@) == sort_by_lower(all.take(n)),
        decreases rest@.len(),
    {
        let ghost pre = rest@;
        assert(strings_of(pre).len() == pre.len());
        let o = rest.remove(0);
        assert(strings_of(pre)[0] == pre[0]@);
        assert(all.skip(n)[0] == all[n]);
        assert(strings_of(rest@) =~= strings_of(pre).skip(1));
        assert(strings_of(pre).skip(1) =~= all.skip(n + 1));
        assert(all.take(n + 1).drop_last() =~= all.take(n));
        assert(all.take(n + 1).last() == all[n]);
        let ghost t = strings_of(out@);
        let key = to_lowercase(o.as_str());
        let mut j: usize = 0;
        loop
            invariant
                j <= out@.len(),
                t == strings_of(out@),
                o@ == all[n],
                key@ == unicode_lower(o@),
                lower_slot_from(t, all[n], j as int) == lower_slot_from(t, all[n], 0),
            ensures
                j <= out@.len(),
                lower_slot_from(t, all[n], j as int) == j,
            decreases out@.len() - j,
        {
            if j >= out.len() {
                break;
            }
            assert(t[j as int] == out@[j as int]@);
            let other = to_lowercase(out[j].as_str());
            if lex_less(key.as_str(), other.as_str()) {
                break;
            }
            j = j + 1;
        }
        out.insert(j, o);
        assert(strings_of(out@) =~= t.insert(j as int, all[n]));
        proof {
            n = n + 1;
        }
    }
    assert(all.take(n) =~= all);
    out
}

/// A mod folder's info from its path, the final component of that path
/// (`folder`, as `Path::file_name` reads it), the descriptor text (when one
/// was found) and the names of its subdirectories and files: the name is
/// the folder's (else the path) unless the descriptor names it, the
/// descriptor's fields are applied, and both name lists come sorted by
/// lower-cased text.
pub fn mod_info_with(
    path: &str,
    folder: Option<String>,
    descriptor: Option<&str>,
    directories: Vec<String>,
    files: Vec<String>,
) -> (r: ModInfo)
    ensures
        r.path@ == path@,
        r.has_descriptor == descriptor is Some,
        r.name@ == (match descriptor {
            Some(t) => or_keep(last_scalar(pairs_from(t@, 0), "name"@), or_keep(opt_view(folder), path@)),
            None => or_keep(opt_view(folder), path@),
        }),
        opt_view(r.version) == (match descriptor {
            Some(t) => last_scalar(pairs_from(t@, 0), "version"@),
            None => None,
        }),
        opt_view(r.supported_version) == (match descriptor {
            Some(t) => last_scalar(pairs_from(t@, 0), "supported_version"@),
            None => None,
        }),
        strings_of(r.tags@) == (match descriptor {
            Some(t) => or_keep(last_list(pairs_from(t@, 0), "tags"@), Seq::empty()),
            None => Seq::empty(),
        }),
        strings_of(r.replace_paths@) == (match descriptor {
            Some(t) => all_scalars(pairs_from(t@, 0), "replace_path"@),
            None => Seq::empty(),
        }),
        strings_of(r.directories@) == sort_by_lower(strings_of(directories@)),
        strings_of(r.files@) == sort_by_lower(strings_of(files@)),
{
    let name = match folder {
        Some(f) => f,
        None => path.to_string(),
    };
    let mut info = ModInfo {
        path: path.to_string(),
        name,
        version: None,
        supported_version: None,
        tags: Vec::new(),
        replace_paths: Vec::new(),
        has_descriptor: descriptor.is_some(),
        directories: Vec::new(),
        files: Vec::new(),
    };
    assert(strings_of(info.tags@) =~= Seq::<Seq<char>>::empty());
    assert(strings_of(info.replace_paths@) =~= Seq::<Seq<char>>::empty());
    match descriptor {
        Some(t) => {
            apply_descriptor(&mut info, t);
            assert(strings_of(info.replace_paths@) =~= all_scalars(pairs_from(t@, 0), "replace_path"@));
        },
        None => {},
    }
    info.directories = sorted_by_lower(directories);
    info.files = sorted_by_lower(files);
    info
}

/// A mod folder's info from its path, the descriptor text (when one was
/// found) and the names of its subdirectories and files; as
/// [`mod_info_with`] with the path's final component as the folder name.
/// What that component is depends on the platform's path separators, so the
/// name is stated for some folder name.
pub fn mod_info(path: &str, descriptor: Option<&str>, directories: Vec<String>, files: Vec<String>) -> (r: ModInfo)
    ensures
        r.path@ == path@,
        r.has_descriptor == descriptor is Some,
        exists|f: Option<Seq<char>>|
            r.name@ == (match descriptor {
                Some(t) => or_keep(last_scalar(pairs_from(t@, 0), "name"@), or_keep(f, path@)),
                None => or_keep(f, path@),
            }),
        opt_view(r.version) == (match descriptor {
            Some(t) => last_scalar(pairs_from(t@, 0), "version"@),
            None => None,
        }),
        opt_view(r.supported_version) == (match descriptor {
            Some(t) => last_scalar(pairs_from(t@, 0), "supported_version"@),
            None => None,
        }),
        strings_of(r.tags@) == (match descriptor {
            Some(t) => or_keep(last_list(pairs_from(t@, 0), "tags"@), Seq::empty()),
            None => Seq::empty(),
        }),
        strings_of(r.replace_paths@) == (match descriptor {
            Some(t) => all_scalars(pairs_from(t@, 0), "replace_path"@),
            None => Seq::empty(),
        }),
        strings_of(r.directories@) == sort_by_lower(strings_of(directories@)),
        strings_of(r.files@) == sort_by_lower(strings_of(files@)),
{
    let folder = folder_name(path);
    mod_info_with(path, folder, descriptor, directories, files)
}

proof fn lemma_lower_slot(t: Seq<Seq<char>>, x: Seq<char>, j: int)
    requires
        0 <= j <= t.len(),
    ensures
        j <= lower_slot_from(t, x, j) <= t.len(),
        forall|k: int| j <= k < lower_slot_from(t, x, j) ==> !lex_lt(unicode_lower(x), unicode_lower(#[trigger] t[k])),
        lower_slot_from(t, x, j) < t.len() ==> lex_lt(unicode_lower(x), unicode_lower(t[lower_slot_from(t, x, j)])),
    decreases t.len() - j,
{
    if j < t.len() && !lex_lt(unicode_lower(x), unicode_lower(t[j])) {
        lemma_lower_slot(t, x, j + 1);
    }
}

pub open spec fn lower_key(s: Seq<char>) -> Seq<char> {
    unicode_lower(s)
}

/// A mod's directory and file names come out ordered by their lower-cased
/// text, and as many as went in.
pub proof fn lemma_sort_by_lower_sorted(s: Seq<Seq<char>>)
    ensures
        sorted_by_key(sort_by_lower(s), |x: Seq<char>| lower_key(x)),
        sort_by_lower(s).len() == s.len(),
    decreases s.len(),
{
    if s.len() > 0 {
        lemma_sort_by_lower_sorted(s.drop_last());
        let t = sort_by_lower(s.drop_last());
        lemma_lower_slot(t, s.last(), 0);
        lemma_insert_sorted(t, |x: Seq<char>| lower_key(x), s.last(), lower_slot_from(t, s.last(), 0));
    }
}

} // verus!
