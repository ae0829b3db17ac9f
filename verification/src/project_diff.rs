//! Mod-vs-base diff browser: classifies every file in the mod project against
//! the base install, and produces a per-file line diff for text files.
//!
//! Classification:
//!   • **added**   — a mod file with no base counterpart at the same path
//!   • **shadows** — a mod file that overrides a same-path base file
//!   • **hidden**  — a base *folder* masked by a descriptor `replace_path`
//!
//! The line diff is a plain longest-common-subsequence walk. Walking the
//! folders is the caller's part.

use vstd::prelude::*;
use crate::mechanics::{lemma_insert_sorted, lex_less, lex_lt, sorted_by_key};
use crate::province_names::latin1_text;
use crate::text::{
    chars_eq_str, chars_of, is_utf8, lossy_string, lossy_utf8, lower_chars, lower_text, push_char, str_eq, string_from_chars,
};
use vstd::utf8::valid_utf8;

verus! {

/// One project file classified against the base install.
#[derive(Debug)]
pub struct FileClass {
    /// Game-relative path (forward slashes).
    pub rel: String,
    /// `added` | `shadows`.
    pub class: String,
    /// True for non-text assets (bmp/dds/tga/png/…): diffed by size/type only.
    pub binary: bool,
    /// File size in bytes (the mod copy).
    pub size: u64,
}

/// A base folder wholly masked by a `replace_path`, plus a summary of what it
/// contained (so the UI can explain what the mod is hiding).
#[derive(Debug)]
pub struct HiddenFolder {
    /// The replace_path folder (game-relative).
    pub rel: String,
    /// Number of base files under it that are now hidden.
    pub base_file_count: usize,
}

/// The whole-project classification payload.
#[derive(Debug)]
pub struct ProjectChanges {
    pub files: Vec<FileClass>,
    pub hidden: Vec<HiddenFolder>,
}

/// One line of a text diff.
#[derive(Debug)]
pub struct DiffLine {
    /// `same` | `add` (mod-only) | `del` (base-only).
    pub tag: String,
    pub text: String,
}

/// A file's diff vs the base install.
#[derive(Debug)]
pub struct FileDiff {
    pub rel: String,
    /// True when there is no base counterpart (the whole file is an addition).
    pub added: bool,
    pub binary: bool,
    /// Size of the base copy (0 when absent) and the mod copy.
    pub base_size: u64,
    pub mod_size: u64,
    /// The line diff (empty for binary files or a pure addition).
    pub lines: Vec<DiffLine>,
}

// ---------------------------------------------------------------------------
// Line diff
// ---------------------------------------------------------------------------

/// The kind of a diff line.
pub enum Tag {
    Same,
    Add,
    Del,
}

/// Length of a longest common subsequence of `a[i..]` and `b[j..]`.
pub open spec fn lcs(a: Seq<Seq<char>>, b: Seq<Seq<char>>, i: int, j: int) -> nat
    decreases a.len() - i + b.len() - j,
{
    if i < 0 || j < 0 || i >= a.len() || j >= b.len() {
        0
    } else if a[i] == b[j] {
        1 + lcs(a, b, i + 1, j + 1)
    } else {
        let x = lcs(a, b, i + 1, j);
        let y = lcs(a, b, i, j + 1);
        if x >= y { x } else { y }
    }
}

/// The diff walk from `(i, j)`: a common line is kept; otherwise the base
/// line is dropped when that keeps the longest common tail at least as long,
/// else the mod line is added. Leftovers are deletions, then additions.
pub open spec fn diff_from(a: Seq<Seq<char>>, b: Seq<Seq<char>>, i: int, j: int) -> Seq<(Tag, Seq<char>)>
    decreases a.len() - i + b.len() - j,
{
    if i < 0 || j < 0 || i > a.len() || j > b.len() {
        Seq::empty()
    } else if i < a.len() && j < b.len() {
        if a[i] == b[j] {
            seq![(Tag::Same, a[i])] + diff_from(a, b, i + 1, j + 1)
        } else if lcs(a, b, i + 1, j) >= lcs(a, b, i, j + 1) {
            seq![(Tag::Del, a[i])] + diff_from(a, b, i + 1, j)
        } else {
            seq![(Tag::Add, b[j])] + diff_from(a, b, i, j + 1)
        }
    } else if i < a.len() {
        seq![(Tag::Del, a[i])] + diff_from(a, b, i + 1, j)
    } else if j < b.len() {
        seq![(Tag::Add, b[j])] + diff_from(a, b, i, j + 1)
    } else {
        Seq::empty()
    }
}

/// The tag text of a diff line.
pub open spec fn tag_text(t: Tag) -> Seq<char> {
    match t {
        Tag::Same => "same"@,
        Tag::Add => "add"@,
        Tag::Del => "del"@,
    }
}

pub open spec fn diff_view(v: Seq<DiffLine>) -> Seq<(Seq<char>, Seq<char>)> {
    v.map_values(|l: DiffLine| (l.tag@, l.text@))
}

pub open spec fn tagged_view(d: Seq<(Tag, Seq<char>)>) -> Seq<(Seq<char>, Seq<char>)> {
    d.map_values(|p: (Tag, Seq<char>)| (tag_text(p.0), p.1))
}

/// The texts of the lines not tagged `skip`: the base side (skip `Add`) or
/// the mod side (skip `Del`).
pub open spec fn side(d: Seq<(Tag, Seq<char>)>, keep_base: bool) -> Seq<Seq<char>>
    decreases d.len(),
{
    if d.len() == 0 {
        Seq::empty()
    } else {
        let rest = side(d.skip(1), keep_base);
        let skip = if keep_base { d[0].0 is Add } else { d[0].0 is Del };
        if skip { rest } else { seq![d[0].1] + rest }
    }
}

/// The number of lines kept in common.
pub open spec fn same_count(d: Seq<(Tag, Seq<char>)>) -> nat
    decreases d.len(),
{
    if d.len() == 0 {
        0
    } else {
        (if d[0].0 is Same { 1nat } else { 0nat }) + same_count(d.skip(1))
    }
}

proof fn lemma_skip_prepend(x: (Tag, Seq<char>), d: Seq<(Tag, Seq<char>)>)
    ensures
        (seq![x] + d).skip(1) == d,
        (seq![x] + d)[0] == x,
        (seq![x] + d).len() > 0,
{
    assert((seq![x] + d).skip(1) =~= d);
}

proof fn lemma_diff_from(a: Seq<Seq<char>>, b: Seq<Seq<char>>, i: int, j: int)
    requires
        0 <= i <= a.len(),
        0 <= j <= b.len(),
    ensures
        side(diff_from(a, b, i, j), true) == a.subrange(i, a.len() as int),
        side(diff_from(a, b, i, j), false) == b.subrange(j, b.len() as int),
        same_count(diff_from(a, b, i, j)) == lcs(a, b, i, j),
    decreases a.len() - i + b.len() - j,
{
    if i < a.len() && j < b.len() {
        let sa = a.subrange(i, a.len() as int);
        let sb = b.subrange(j, b.len() as int);
        if a[i] == b[j] {
            lemma_diff_from(a, b, i + 1, j + 1);
            lemma_skip_prepend((Tag::Same, a[i]), diff_from(a, b, i + 1, j + 1));
            assert(sa =~= seq![a[i]] + a.subrange(i + 1, a.len() as int));
            assert(sb =~= seq![b[j]] + b.subrange(j + 1, b.len() as int));
        } else if lcs(a, b, i + 1, j) >= lcs(a, b, i, j + 1) {
            lemma_diff_from(a, b, i + 1, j);
            lemma_skip_prepend((Tag::Del, a[i]), diff_from(a, b, i + 1, j));
            assert(sa =~= seq![a[i]] + a.subrange(i + 1, a.len() as int));
        } else {
            lemma_diff_from(a, b, i, j + 1);
            lemma_skip_prepend((Tag::Add, b[j]), diff_from(a, b, i, j + 1));
            assert(sb =~= seq![b[j]] + b.subrange(j + 1, b.len() as int));
        }
    } else if i < a.len() {
        lemma_diff_from(a, b, i + 1, j);
        lemma_skip_prepend((Tag::Del, a[i]), diff_from(a, b, i + 1, j));
        assert(a.subrange(i, a.len() as int) =~= seq![a[i]] + a.subrange(i + 1, a.len() as int));
        assert(b.subrange(j, b.len() as int) =~= Seq::<Seq<char>>::empty());
    } else if j < b.len() {
        lemma_diff_from(a, b, i, j + 1);
        lemma_skip_prepend((Tag::Add, b[j]), diff_from(a, b, i, j + 1));
        assert(b.subrange(j, b.len() as int) =~= seq![b[j]] + b.subrange(j + 1, b.len() as int));
        assert(a.subrange(i, a.len() as int) =~= Seq::<Seq<char>>::empty());
    } else {
        assert(a.subrange(i, a.len() as int) =~= Seq::<Seq<char>>::empty());
        assert(b.subrange(j, b.len() as int) =~= Seq::<Seq<char>>::empty());
    }
}

/// The diff law: the lines not marked `add` are exactly the base lines, the
/// lines not marked `del` are exactly the mod lines, and the lines marked
/// `same` are as many as a longest common subsequence of the two.
pub proof fn lemma_line_diff(a: Seq<Seq<char>>, b: Seq<Seq<char>>)
    ensures
        side(diff_from(a, b, 0, 0), true) == a,
        side(diff_from(a, b, 0, 0), false) == b,
        same_count(diff_from(a, b, 0, 0)) == lcs(a, b, 0, 0),
{
    lemma_diff_from(a, b, 0, 0);
    assert(a.subrange(0, a.len() as int) =~= a);
    assert(b.subrange(0, b.len() as int) =~= b);
}

/// The texts of a list of string slices.
pub open spec fn strs(v: Seq<&str>) -> Seq<Seq<char>> {
    v.map_values(|s: &str| s@)
}

proof fn lemma_lcs_bound(a: Seq<Seq<char>>, b: Seq<Seq<char>>, i: int, j: int)
    requires
        0 <= i <= a.len(),
        0 <= j <= b.len(),
    ensures
        lcs(a, b, i, j) <= a.len() - i,
    decreases a.len() - i + b.len() - j,
{
    if i < a.len() && j < b.len() {
        lemma_lcs_bound(a, b, i + 1, j + 1);
        lemma_lcs_bound(a, b, i + 1, j);
        lemma_lcs_bound(a, b, i, j + 1);
    }
}

fn tagged_line(t: u8, text: &str) -> (r: DiffLine)
    requires
        t < 3,
    ensures
        r.text@ == text@,
        r.tag@ == (if t == 0 { "same"@ } else if t == 1 { "add"@ } else { "del"@ }),
{
    let tag = if t == 0 {
        String::from_str("same")
    } else if t == 1 {
        String::from_str("add")
    } else {
        String::from_str("del")
    };
    DiffLine { tag, text: text.to_string() }
}

/// LCS line diff of `base` vs `modv`, emitting del(base-only)/add(mod-only)/same.
pub fn line_diff(base: &[&str], modv: &[&str]) -> (r: Vec<DiffLine>)
    requires
        base@.len() < usize::MAX,
        modv@.len() < usize::MAX,
    ensures
        diff_view(r@) == tagged_view(diff_from(strs(base@), strs(modv@), 0, 0)),
{
    let ghost a = strs(base@);
    let ghost b = strs(modv@);
    let n = base.len();
    let m = modv.len();
    // rows[k] holds the LCS lengths of row n - k.
    let mut rows: Vec<Vec<usize>> = Vec::new();
    let mut last: Vec<usize> = Vec::new();
    let mut j: usize = 0;
    while j <= m
        invariant
            j <= m + 1,
            m == b.len(),
            m < usize::MAX,
            last@.len() == j,
            forall|jj: int| 0 <= jj < j ==> last@[jj] == 0,
        decreases m + 1 - j,
    {
        last.push(0);
        j = j + 1;
    }
    rows.push(last);
    let mut i: usize = n;
    while i > 0
        invariant
            i <= n,
            m < usize::MAX,
            n == a.len(),
            m == b.len(),
            a == strs(base@),
            b == strs(modv@),
            rows@.len() == n - i + 1,
            forall|k: int| 0 <= k < rows@.len() ==> (#[trigger] rows@[k])@.len() == m + 1,
            forall|k: int, jj: int| 0 <= k < rows@.len() && 0 <= jj <= m ==> #[trigger] rows@[k]@[jj] == lcs(a, b, n - k, jj),
        decreases i,
    {
        let ii = i - 1;
        let below = n - i;
        let mut row: Vec<usize> = Vec::new();
        let mut z: usize = 0;
        while z <= m
            invariant
                z <= m + 1,
                m < usize::MAX,
                row@.len() == z,
                forall|x: int| 0 <= x < z ==> row@[x] == 0,
            decreases m + 1 - z,
        {
            row.push(0);
            z = z + 1;
        }
        assert(lcs(a, b, ii as int, m as int) == 0);
        let mut jj: usize = m;
        while jj > 0
            invariant
                jj <= m,
                ii < n,
                n == a.len(),
                m == b.len(),
                a == strs(base@),
                b == strs(modv@),
                below == n - ii - 1,
                below < rows@.len(),
                rows@[below as int]@.len() == m + 1,
                forall|x: int| 0 <= x <= m ==> rows@[below as int]@[x] == lcs(a, b, ii + 1, x),
                row@.len() == m + 1,
                forall|x: int| jj <= x <= m ==> #[trigger] row@[x] == lcs(a, b, ii as int, x),
                row@[m as int] == 0,
            decreases jj,
        {
            let x = jj - 1;
            proof {
                lemma_lcs_bound(a, b, ii + 1, x + 1);
                lemma_lcs_bound(a, b, ii as int, x as int);
                assert(a[ii as int] == base@[ii as int]@);
                assert(b[x as int] == modv@[x as int]@);
            }
            let v = if str_eq(base[ii], modv[x]) {
                rows[below][x + 1] + 1
            } else {
                let d = rows[below][x];
                let r = row[x + 1];
                if d >= r { d } else { r }
            };
            row.set(x, v);
            jj = x;
        }
        rows.push(row);
        i = ii;
    }
    let mut out: Vec<DiffLine> = Vec::new();
    let mut i: usize = 0;
    let mut j: usize = 0;
    while i < n || j < m
        invariant
            i <= n,
            j <= m,
            n == a.len(),
            m == b.len(),
            a == strs(base@),
            b == strs(modv@),
            rows@.len() == n + 1,
            forall|k: int| 0 <= k < rows@.len() ==> (#[trigger] rows@[k])@.len() == m + 1,
            forall|k: int, jj: int| 0 <= k < rows@.len() && 0 <= jj <= m ==> #[trigger] rows@[k]@[jj] == lcs(a, b, n - k, jj),
            diff_view(out@) + tagged_view(diff_from(a, b, i as int, j as int)) == tagged_view(diff_from(a, b, 0, 0)),
        decreases n - i + m - j,
    {
        let ghost before = out@;
        proof {
            if i < n {
                assert(a[i as int] == base@[i as int]@);
            }
            if j < m {
                assert(b[j as int] == modv@[j as int]@);
            }
        }
        if i < n && j < m {
            if str_eq(base[i], modv[j]) {
                out.push(tagged_line(0, base[i]));
                i = i + 1;
                j = j + 1;
            } else if rows[n - i - 1][j] >= rows[n - i][j + 1] {
                out.push(tagged_line(2, base[i]));
                i = i + 1;
            } else {
                out.push(tagged_line(1, modv[j]));
                j = j + 1;
            }
        } else if i < n {
            out.push(tagged_line(2, base[i]));
            i = i + 1;
        } else {
            out.push(tagged_line(1, modv[j]));
            j = j + 1;
        }
        proof {
            assert(diff_view(out@) =~= diff_view(before).push(diff_view(out@).last()));
        }
        assert(diff_view(out@) + tagged_view(diff_from(a, b, i as int, j as int)) =~= tagged_view(diff_from(a, b, 0, 0)));
    }
    assert(diff_from(a, b, n as int, m as int) =~= Seq::<(Tag, Seq<char>)>::empty());
    assert(diff_view(out@) =~= diff_view(out@) + tagged_view(diff_from(a, b, n as int, m as int)));
    out
}

// ---------------------------------------------------------------------------
// Binary assets and whole-file diffs
// ---------------------------------------------------------------------------

/// Binary asset extensions — diffed as a size/type note only.
pub open spec fn binary_exts() -> Seq<Seq<char>> {
    seq!["bmp"@, "dds"@, "tga"@, "png"@, "jpg"@, "jpeg"@, "wav"@, "ogg"@, "mp3"@, "mesh"@, "anim"@, "bank"@, "ttf"@, "otf"@, "ico"@, "webp"@]
}

/// The index of the last `.` before `j`, if any.
pub open spec fn last_dot(s: Seq<char>, j: int) -> Option<int>
    decreases j,
{
    if j <= 0 || j > s.len() {
        None
    } else if s[j - 1] == '.' {
        Some(j - 1)
    } else {
        last_dot(s, j - 1)
    }
}

/// Whether the path names a binary asset: the text after its last `.`,
/// ASCII-lowercased, is one of [`binary_exts`].
pub open spec fn is_binary_spec(rel: Seq<char>) -> bool {
    match last_dot(rel, rel.len() as int) {
        Some(d) => binary_exts().contains(lower_text(rel.subrange(d + 1, rel.len() as int))),
        None => false,
    }
}

proof fn lemma_last_dot_ext(dir: Seq<char>, ext: Seq<char>, j: int)
    requires
        forall|i: int| 0 <= i < ext.len() ==> ext[i] != '.',
        dir.len() < j <= dir.len() + 1 + ext.len(),
    ensures
        last_dot(dir + seq!['.'] + ext, j) == Some(dir.len() as int),
    decreases j,
{
    let p = dir + seq!['.'] + ext;
    if j > dir.len() + 1 {
        assert(p[j - 1] == ext[j - 1 - dir.len() - 1]);
        lemma_last_dot_ext(dir, ext, j - 1);
    } else {
        assert(p[j - 1] == '.');
    }
}

proof fn lemma_no_dot(p: Seq<char>, j: int)
    requires
        forall|i: int| 0 <= i < p.len() ==> p[i] != '.',
        j <= p.len(),
    ensures
        last_dot(p, j) is None,
    decreases j,
{
    if j > 0 {
        lemma_no_dot(p, j - 1);
    }
}

/// Which paths are binary assets: a path `dir.ext` (the extension holding no
/// `.`) is binary exactly when its extension, ASCII-lowercased, is one of
/// bmp, dds, tga, png, jpg, jpeg, wav, ogg, mp3, mesh, anim, bank, ttf, otf,
/// ico or webp; a path with no `.` is never binary.
pub proof fn lemma_binary_by_extension(dir: Seq<char>, ext: Seq<char>)
    requires
        forall|i: int| 0 <= i < ext.len() ==> ext[i] != '.',
    ensures
        is_binary_spec(dir + seq!['.'] + ext) <==> (lower_text(ext) == "bmp"@ || lower_text(ext) == "dds"@ || lower_text(ext) == "tga"@ || lower_text(ext) == "png"@ || lower_text(ext) == "jpg"@ || lower_text(ext) == "jpeg"@ || lower_text(ext) == "wav"@ || lower_text(ext) == "ogg"@ || lower_text(ext) == "mp3"@ || lower_text(ext) == "mesh"@ || lower_text(ext) == "anim"@ || lower_text(ext) == "bank"@ || lower_text(ext) == "ttf"@ || lower_text(ext) == "otf"@ || lower_text(ext) == "ico"@ || lower_text(ext) == "webp"@),
        (forall|i: int| 0 <= i < dir.len() ==> dir[i] != '.') ==> !is_binary_spec(dir),
{
    let p = dir + seq!['.'] + ext;
    lemma_last_dot_ext(dir, ext, p.len() as int);
    assert(p.subrange(dir.len() + 1int, p.len() as int) =~= ext);
    let l = lower_text(ext);
    if binary_exts().contains(l) {
        let k = choose|k: int| 0 <= k < binary_exts().len() && binary_exts()[k] == l;
        assert(binary_exts()[k] == l);
    }
    if lower_text(ext) == "bmp"@ || lower_text(ext) == "dds"@ || lower_text(ext) == "tga"@ || lower_text(ext) == "png"@ || lower_text(ext) == "jpg"@ || lower_text(ext) == "jpeg"@ || lower_text(ext) == "wav"@ || lower_text(ext) == "ogg"@ || lower_text(ext) == "mp3"@ || lower_text(ext) == "mesh"@ || lower_text(ext) == "anim"@ || lower_text(ext) == "bank"@ || lower_text(ext) == "ttf"@ || lower_text(ext) == "otf"@ || lower_text(ext) == "ico"@ || lower_text(ext) == "webp"@ {
        if l == "bmp"@ {
            assert(binary_exts()[0] == l);
        }
        if l == "dds"@ {
            assert(binary_exts()[1] == l);
        }
        if l == "tga"@ {
            assert(binary_exts()[2] == l);
        }
        if l == "png"@ {
            assert(binary_exts()[3] == l);
        }
        if l == "jpg"@ {
            assert(binary_exts()[4] == l);
        }
        if l == "jpeg"@ {
            assert(binary_exts()[5] == l);
        }
        if l == "wav"@ {
            assert(binary_exts()[6] == l);
        }
        if l == "ogg"@ {
            assert(binary_exts()[7] == l);
        }
        if l == "mp3"@ {
            assert(binary_exts()[8] == l);
        }
        if l == "mesh"@ {
            assert(binary_exts()[9] == l);
        }
        if l == "anim"@ {
            assert(binary_exts()[10] == l);
        }
        if l == "bank"@ {
            assert(binary_exts()[11] == l);
        }
        if l == "ttf"@ {
            assert(binary_exts()[12] == l);
        }
        if l == "otf"@ {
            assert(binary_exts()[13] == l);
        }
        if l == "ico"@ {
            assert(binary_exts()[14] == l);
        }
        if l == "webp"@ {
            assert(binary_exts()[15] == l);
        }
    }
    if forall|i: int| 0 <= i < dir.len() ==> dir[i] != '.' {
        lemma_no_dot(dir, dir.len() as int);
    }
}

fn ext_is_binary(e: &[char]) -> (r: bool)
    ensures
        r == binary_exts().contains(e@),
{
    if chars_eq_str(e, "bmp") {
        assert(binary_exts()[0] == e@);
        return true;
    }
    if chars_eq_str(e, "dds") {
        assert(binary_exts()[1] == e@);
        return true;
    }
    if chars_eq_str(e, "tga") {
        assert(binary_exts()[2] == e@);
        return true;
    }
    if chars_eq_str(e, "png") {
        assert(binary_exts()[3] == e@);
        return true;
    }
    if chars_eq_str(e, "jpg") {
        assert(binary_exts()[4] == e@);
        return true;
    }
    if chars_eq_str(e, "jpeg") {
        assert(binary_exts()[5] == e@);
        return true;
    }
    if chars_eq_str(e, "wav") {
        assert(binary_exts()[6] == e@);
        return true;
    }
    if chars_eq_str(e, "ogg") {
        assert(binary_exts()[7] == e@);
        return true;
    }
    if chars_eq_str(e, "mp3") {
        assert(binary_exts()[8] == e@);
        return true;
    }
    if chars_eq_str(e, "mesh") {
        assert(binary_exts()[9] == e@);
        return true;
    }
    if chars_eq_str(e, "anim") {
        assert(binary_exts()[10] == e@);
        return true;
    }
    if chars_eq_str(e, "bank") {
        assert(binary_exts()[11] == e@);
        return true;
    }
    if chars_eq_str(e, "ttf") {
        assert(binary_exts()[12] == e@);
        return true;
    }
    if chars_eq_str(e, "otf") {
        assert(binary_exts()[13] == e@);
        return true;
    }
    if chars_eq_str(e, "ico") {
        assert(binary_exts()[14] == e@);
        return true;
    }
    if chars_eq_str(e, "webp") {
        assert(binary_exts()[15] == e@);
        return true;
    }
    assert forall|i: int| 0 <= i < binary_exts().len() implies binary_exts()[i] != e@ by {}
    false
}

/// Whether the game-relative path names a binary asset.
pub fn is_binary(rel: &str) -> (r: bool)
    ensures
        r == is_binary_spec(rel@),
{
    let cs = chars_of(rel);
    let n = cs.len();
    let mut j = n;
    while j > 0 && cs[j - 1] != '.'
        invariant
            j <= n,
            n == cs@.len(),
            last_dot(cs@, j as int) == last_dot(cs@, n as int),
        decreases j,
    {
        j = j - 1;
    }
    if j == 0 {
        return false;
    }
    let ext = lower_chars(&cs.as_slice()[j..n]);
    ext_is_binary(ext.as_slice())
}

/// First index at or after `i` holding a line feed, else the length.
pub open spec fn newline_from(s: Seq<char>, i: int) -> int
    decreases s.len() - i,
{
    if i < 0 || i >= s.len() || s[i] == '\n' {
        i
    } else {
        newline_from(s, i + 1)
    }
}

pub proof fn lemma_newline_from(s: Seq<char>, i: int)
    requires
        0 <= i <= s.len(),
    ensures
        i <= newline_from(s, i) <= s.len(),
    decreases s.len() - i,
{
    if i < s.len() && s[i] != '\n' {
        lemma_newline_from(s, i + 1);
    }
}

/// `str::lines` from index `i`: lines end at `\n` (a `\r` just before it is
/// dropped too); the last line needs no terminator, and no empty line
/// follows a final `\n`.
pub open spec fn lines_from(s: Seq<char>, i: int) -> Seq<Seq<char>>
    decreases s.len() - i,
{
    if i < 0 || i >= s.len() {
        Seq::empty()
    } else {
        proof {
            lemma_newline_from(s, i);
        }
        let k = newline_from(s, i);
        if k >= s.len() {
            seq![s.subrange(i, s.len() as int)]
        } else {
            let line = s.subrange(i, k);
            let line = if line.len() > 0 && line.last() == '\r' { line.drop_last() } else { line };
            seq![line] + lines_from(s, k + 1)
        }
    }
}

proof fn lemma_lines_len(s: Seq<char>, i: int)
    requires
        0 <= i <= s.len(),
    ensures
        lines_from(s, i).len() <= s.len() - i,
    decreases s.len() - i,
{
    if i < s.len() {
        lemma_newline_from(s, i);
        let k = newline_from(s, i);
        if k < s.len() {
            lemma_lines_len(s, k + 1);
        }
    }
}

/// The lines of a text (`str::lines`).
pub fn split_lines(text: &str) -> (r: Vec<String>)
    ensures
        crate::text::strings_of(r@) == lines_from(text@, 0),
{
    let cs = chars_of(text);
    let n = cs.len();
    let mut out: Vec<String> = Vec::new();
    let mut i: usize = 0;
    while i < n
        invariant
            n == cs@.len(),
            cs@ == text@,
            i <= n,
            crate::text::strings_of(out@) + lines_from(cs@, i as int) == lines_from(cs@, 0),
        decreases n - i,
    {
        let ghost before = out@;
        proof {
            lemma_newline_from(cs@, i as int);
        }
        let mut k = i;
        while k < n && cs[k] != '\n'
            invariant
                i <= k <= n,
                n == cs@.len(),
                newline_from(cs@, k as int) == newline_from(cs@, i as int),
            decreases n - k,
        {
            k = k + 1;
        }
        if k >= n {
            out.push(string_from_chars(&cs.as_slice()[i..n]));
            i = n;
        } else {
            let end = if k > i && cs[k - 1] == '\r' { k - 1 } else { k };
            assert(cs@.subrange(i as int, end as int) =~= {
                let line = cs@.subrange(i as int, k as int);
                if line.len() > 0 && line.last() == '\r' { line.drop_last() } else { line }
            });
            out.push(string_from_chars(&cs.as_slice()[i..end]));
            i = k + 1;
        }
        proof {
            assert(crate::text::strings_of(out@) =~= crate::text::strings_of(before).push(out@.last()@));
        }
        assert(crate::text::strings_of(out@) + lines_from(cs@, i as int) =~= lines_from(cs@, 0));
    }
    assert(crate::text::strings_of(out@) + Seq::<Seq<char>>::empty() =~= crate::text::strings_of(out@));
    out
}

/// The string slices of a list of strings.
fn as_strs(v: &Vec<String>) -> (r: Vec<&str>)
    ensures
        strs(r@) == crate::text::strings_of(v@),
{
    let mut out: Vec<&str> = Vec::new();
    let mut i: usize = 0;
    while i < v.len()
        invariant
            i <= v@.len(),
            strs(out@) == crate::text::strings_of(v@.subrange(0, i as int)),
        decreases v@.len() - i,
    {
        let ghost prev = out@;
        let r = v[i].as_str();
        out.push(r);
        assert(strs(out@) =~= strs(prev).push(v@[i as int]@));
        assert(crate::text::strings_of(v@.subrange(0, i + 1)) =~= crate::text::strings_of(v@.subrange(0, i as int)).push(v@[i as int]@));
        i = i + 1;
    }
    assert(v@.subrange(0, v@.len() as int) =~= v@);
    out
}

/// The diff of one mod-layer file vs its base counterpart, from the base
/// copy's size and decoded text (when the base has the file) and the mod
/// copy's size and decoded text: a binary asset or a pure addition gets no
/// line diff.
pub fn diff_texts(rel: &str, base: Option<(u64, String)>, mod_size: u64, mod_text: &str) -> (r: FileDiff)
    requires
        base matches Some((_, t)) ==> t@.len() < usize::MAX,
        mod_text@.len() < usize::MAX,
    ensures
        r.rel@ == rel@,
        r.added == base is None,
        r.binary == is_binary_spec(rel@),
        r.mod_size == mod_size,
        r.base_size == match base {
            Some((sz, _)) => sz,
            None => 0,
        },
        match base {
            Some((_, t)) => !is_binary_spec(rel@) ==> diff_view(r.lines@) == tagged_view(
                diff_from(lines_from(t@, 0), lines_from(mod_text@, 0), 0, 0),
            ),
            None => true,
        },
        (base is None || is_binary_spec(rel@)) ==> r.lines@.len() == 0,
{
    let binary = is_binary(rel);
    match base {
        Some((base_size, base_text)) => {
            if binary {
                return FileDiff { rel: rel.to_string(), added: false, binary, base_size, mod_size, lines: Vec::new() };
            }
            let bl = split_lines(base_text.as_str());
            let ml = split_lines(mod_text);
            let bs = as_strs(&bl);
            let ms = as_strs(&ml);
            proof {
                lemma_lines_len(base_text@, 0);
                lemma_lines_len(mod_text@, 0);
                assert(bs@.len() == strs(bs@).len());
                assert(ms@.len() == strs(ms@).len());
            }
            let lines = line_diff(bs.as_slice(), ms.as_slice());
            FileDiff { rel: rel.to_string(), added: false, binary: false, base_size, mod_size, lines }
        },
        None => FileDiff { rel: rel.to_string(), added: true, binary, base_size: 0, mod_size, lines: Vec::new() },
    }
}

// ---------------------------------------------------------------------------
// Classifying the project's files
// ---------------------------------------------------------------------------

pub open spec fn class_view(f: FileClass) -> (Seq<char>, Seq<char>, bool, u64) {
    (f.rel@, f.class@, f.binary, f.size)
}

pub open spec fn classes_view(v: Seq<FileClass>) -> Seq<(Seq<char>, Seq<char>, bool, u64)> {
    v.map_values(|f: FileClass| class_view(f))
}

pub open spec fn hidden_view(h: HiddenFolder) -> (Seq<char>, usize) {
    (h.rel@, h.base_file_count)
}

pub open spec fn hiddens_view(v: Seq<HiddenFolder>) -> Seq<(Seq<char>, usize)> {
    v.map_values(|h: HiddenFolder| hidden_view(h))
}

/// The class of a mod-layer file `(rel, size, base_has)`: `shadows` when
/// the base install has the same path, else `added`.
pub open spec fn class_spec(e: (Seq<char>, u64, bool)) -> (Seq<char>, Seq<char>, bool, u64) {
    (e.0, if e.2 { "shadows"@ } else { "added"@ }, is_binary_spec(e.0), e.1)
}

/// Where a stable sort by path places `x` after the sorted `t`.
pub open spec fn class_slot_from(t: Seq<(Seq<char>, Seq<char>, bool, u64)>, x: Seq<char>, j: int) -> int
    decreases t.len() - j,
{
    if j < 0 || j >= t.len() {
        t.len() as int
    } else if lex_lt(x, t[j].0) {
        j
    } else {
        class_slot_from(t, x, j + 1)
    }
}

/// The classes of the entries, sorted by path (stably).
pub open spec fn sorted_classes(s: Seq<(Seq<char>, u64, bool)>) -> Seq<(Seq<char>, Seq<char>, bool, u64)>
    decreases s.len(),
{
    if s.len() == 0 {
        Seq::empty()
    } else {
        let t = sorted_classes(s.drop_last());
        t.insert(class_slot_from(t, s.last().0, 0), class_spec(s.last()))
    }
}

/// Where a stable sort by path places `x` after the sorted `t`.
pub open spec fn hidden_slot_from(t: Seq<(Seq<char>, usize)>, x: Seq<char>, j: int) -> int
    decreases t.len() - j,
{
    if j < 0 || j >= t.len() {
        t.len() as int
    } else if lex_lt(x, t[j].0) {
        j
    } else {
        hidden_slot_from(t, x, j + 1)
    }
}

/// The hidden folders sorted by path (stably).
pub open spec fn sorted_hidden(s: Seq<(Seq<char>, usize)>) -> Seq<(Seq<char>, usize)>
    decreases s.len(),
{
    if s.len() == 0 {
        s
    } else {
        let t = sorted_hidden(s.drop_last());
        t.insert(hidden_slot_from(t, s.last().0, 0), s.last())
    }
}

/// The project's changes from its mod-layer files `(rel, size, base_has)`
/// (as walked) and the replace_path folders that mask a base folder
/// `(rel, base_file_count)`: each file classed `shadows`/`added` and
/// flagged binary by extension, both lists sorted by path.
pub fn classify_entries(files: Vec<(String, u64, bool)>, hidden: Vec<(String, usize)>) -> (r: ProjectChanges)
    ensures
        classes_view(r.files@) == sorted_classes(files@.map_values(|e: (String, u64, bool)| (e.0@, e.1, e.2))),
        hiddens_view(r.hidden@) == sorted_hidden(hidden@.map_values(|h: (String, usize)| (h.0@, h.1))),
{
    let ghost all = files@.map_values(|e: (String, u64, bool)| (e.0@, e.1, e.2));
    let mut rest = files;
    let mut out: Vec<FileClass> = Vec::new();
    let ghost mut n: int = 0;
    proof {
        reveal_strlit("shadows");
        reveal_strlit("added");
    }
    assert(all.skip(0) =~= all);
    while rest.len() > 0
        invariant
            0 <= n <= all.len(),
            rest@.map_values(|e: (String, u64, bool)| (e.0@, e.1, e.2)) == all.skip(n),
            classes_view(out@) == sorted_classes(all.take(n)),
        decreases rest@.len(),
    {
        let ghost pre = rest@;
        assert(pre.map_values(|e: (String, u64, bool)| (e.0@, e.1, e.2)).len() == pre.len());
        let (rel, size, base_has) = rest.remove(0);
        assert(pre.map_values(|e: (String, u64, bool)| (e.0@, e.1, e.2))[0] == (pre[0].0@, pre[0].1, pre[0].2));
        assert(all.skip(n)[0] == all[n]);
        assert(rest@.map_values(|e: (String, u64, bool)| (e.0@, e.1, e.2)) =~= pre.map_values(|e: (String, u64, bool)| (e.0@, e.1, e.2)).skip(1));
        assert(pre.map_values(|e: (String, u64, bool)| (e.0@, e.1, e.2)).skip(1) =~= all.skip(n + 1));
        assert(all.take(n + 1).drop_last() =~= all.take(n));
        assert(all.take(n + 1).last() == all[n]);
        let ghost t = classes_view(out@);
        let binary = is_binary(rel.as_str());
        let class = if base_has { String::from_str("shadows") } else { String::from_str("added") };
        let f = FileClass { rel, class, binary, size };
        assert(class_view(f) == class_spec(all[n]));
        let mut j: usize = 0;
        loop
            invariant
                j <= out@.len(),
                t == classes_view(out@),
                f.rel@ == all[n].0,
                class_slot_from(t, all[n].0, j as int) == class_slot_from(t, all[n].0, 0),
            ensures
                j <= out@.len(),
                class_slot_from(t, all[n].0, j as int) == j,
            decreases out@.len() - j,
        {
            if j >= out.len() {
                break;
            }
            assert(t[j as int] == class_view(out@[j as int]));
            if lex_less(f.rel.as_str(), out[j].rel.as_str()) {
                break;
            }
            j = j + 1;
        }
        out.insert(j, f);
        assert(classes_view(out@) =~= t.insert(j as int, class_spec(all[n])));
        proof {
            n = n + 1;
        }
    }
    assert(all.take(n) =~= all);

    let ghost hall = hidden@.map_values(|h: (String, usize)| (h.0@, h.1));
    let mut hrest = hidden;
    let mut hout: Vec<HiddenFolder> = Vec::new();
    let ghost mut m: int = 0;
    assert(hall.skip(0) =~= hall);
    while hrest.len() > 0
        invariant
            0 <= m <= hall.len(),
            hrest@.map_values(|h: (String, usize)| (h.0@, h.1)) == hall.skip(m),
            hiddens_view(hout@) == sorted_hidden(hall.take(m)),
        decreases hrest@.len(),
    {
        let ghost pre = hrest@;
        assert(pre.map_values(|h: (String, usize)| (h.0@, h.1)).len() == pre.len());
        let (rel, count) = hrest.remove(0);
        assert(pre.map_values(|h: (String, usize)| (h.0@, h.1))[0] == (pre[0].0@, pre[0].1));
        assert(hall.skip(m)[0] == hall[m]);
        assert(hrest@.map_values(|h: (String, usize)| (h.0@, h.1)) =~= pre.map_values(|h: (String, usize)| (h.0@, h.1)).skip(1));
        assert(pre.map_values(|h: (String, usize)| (h.0@, h.1)).skip(1) =~= hall.skip(m + 1));
        assert(hall.take(m + 1).drop_last() =~= hall.take(m));
        assert(hall.take(m + 1).last() == hall[m]);
        let ghost t = hiddens_view(hout@);
        let h = HiddenFolder { rel, base_file_count: count };
        let mut j: usize = 0;
        loop
            invariant
                j <= hout@.len(),
                t == hiddens_view(hout@),
                hidden_view(h) == hall[m],
                hidden_slot_from(t, hall[m].0, j as int) == hidden_slot_from(t, hall[m].0, 0),
            ensures
                j <= hout@.len(),
                hidden_slot_from(t, hall[m].0, j as int) == j,
            decreases hout@.len() - j,
        {
            if j >= hout.len() {
                break;
            }
            assert(t[j as int] == hidden_view(hout@[j as int]));
            if lex_less(h.rel.as_str(), hout[j].rel.as_str()) {
                break;
            }
            j = j + 1;
        }
        hout.insert(j, h);
        assert(hiddens_view(hout@) =~= t.insert(j as int, hall[m]));
        proof {
            m = m + 1;
        }
    }
    assert(hall.take(m) =~= hall);
    ProjectChanges { files: out, hidden: hout }
}

proof fn lemma_class_slot(t: Seq<(Seq<char>, Seq<char>, bool, u64)>, x: Seq<char>, j: int)
    requires
        0 <= j <= t.len(),
    ensures
        j <= class_slot_from(t, x, j) <= t.len(),
        forall|k: int| j <= k < class_slot_from(t, x, j) ==> !lex_lt(x, #[trigger] t[k].0),
        class_slot_from(t, x, j) < t.len() ==> lex_lt(x, t[class_slot_from(t, x, j)].0),
    decreases t.len() - j,
{
    if j < t.len() && !lex_lt(x, t[j].0) {
        lemma_class_slot(t, x, j + 1);
    }
}

proof fn lemma_hidden_slot(t: Seq<(Seq<char>, usize)>, x: Seq<char>, j: int)
    requires
        0 <= j <= t.len(),
    ensures
        j <= hidden_slot_from(t, x, j) <= t.len(),
        forall|k: int| j <= k < hidden_slot_from(t, x, j) ==> !lex_lt(x, #[trigger] t[k].0),
        hidden_slot_from(t, x, j) < t.len() ==> lex_lt(x, t[hidden_slot_from(t, x, j)].0),
    decreases t.len() - j,
{
    if j < t.len() && !lex_lt(x, t[j].0) {
        lemma_hidden_slot(t, x, j + 1);
    }
}

pub open spec fn class_rel(c: (Seq<char>, Seq<char>, bool, u64)) -> Seq<char> {
    c.0
}

pub open spec fn hidden_rel(h: (Seq<char>, usize)) -> Seq<char> {
    h.0
}

/// The classified files come out ordered by path, one per entry.
pub proof fn lemma_classes_sorted(s: Seq<(Seq<char>, u64, bool)>)
    ensures
        sorted_by_key(sorted_classes(s), |c: (Seq<char>, Seq<char>, bool, u64)| class_rel(c)),
        sorted_classes(s).len() == s.len(),
    decreases s.len(),
{
    if s.len() > 0 {
        lemma_classes_sorted(s.drop_last());
        let t = sorted_classes(s.drop_last());
        lemma_class_slot(t, s.last().0, 0);
        lemma_insert_sorted(t, |c: (Seq<char>, Seq<char>, bool, u64)| class_rel(c), class_spec(s.last()), class_slot_from(t, s.last().0, 0));
    }
}

/// The hidden folders come out ordered by path, one per entry.
pub proof fn lemma_hidden_sorted(s: Seq<(Seq<char>, usize)>)
    ensures
        sorted_by_key(sorted_hidden(s), |h: (Seq<char>, usize)| hidden_rel(h)),
        sorted_hidden(s).len() == s.len(),
    decreases s.len(),
{
    if s.len() > 0 {
        lemma_hidden_sorted(s.drop_last());
        let t = sorted_hidden(s.drop_last());
        lemma_hidden_slot(t, s.last().0, 0);
        lemma_insert_sorted(t, |h: (Seq<char>, usize)| hidden_rel(h), s.last(), hidden_slot_from(t, s.last().0, 0));
    }
}

// ---------------------------------------------------------------------------
// Decoding a file's text for the diff
// ---------------------------------------------------------------------------

/// Whether a path names a localisation file (`.yml`, any ASCII case).
pub open spec fn is_yml_spec(rel: Seq<char>) -> bool {
    rel.len() >= 4 && lower_text(rel.subrange(rel.len() - 4, rel.len() as int)) == ".yml"@
}

/// The bytes without a leading UTF-8 byte-order mark.
pub open spec fn without_bom(b: Seq<u8>) -> Seq<u8> {
    if b.len() >= 3 && b[0] == 0xEFu8 && b[1] == 0xBBu8 && b[2] == 0xBFu8 {
        b.subrange(3, b.len() as int)
    } else {
        b
    }
}

/// The text of a file for the diff: after any byte-order mark, a
/// localisation file or well-formed UTF-8 is read as UTF-8 (lossily), any
/// other file one char per byte.
pub open spec fn decode_spec(rel: Seq<char>, b: Seq<u8>) -> Seq<char> {
    let body = without_bom(b);
    if is_yml_spec(rel) || valid_utf8(body) {
        lossy_utf8(body)
    } else {
        latin1_text(body)
    }
}

/// Decodes a file's bytes for the diff (see [`decode_spec`]).
pub fn decode_text(rel: &str, bytes: &[u8]) -> (r: String)
    ensures
        r@ == decode_spec(rel@, bytes@),
{
    let n = bytes.len();
    let start: usize = if n >= 3 && bytes[0] == 0xEF && bytes[1] == 0xBB && bytes[2] == 0xBF { 3 } else { 0 };
    let mut body: Vec<u8> = Vec::new();
    let mut i = start;
    while i < n
        invariant
            start <= i <= n,
            n == bytes@.len(),
            body@ == bytes@.subrange(start as int, i as int),
        decreases n - i,
    {
        body.push(bytes[i]);
        assert(body@ =~= bytes@.subrange(start as int, i + 1));
        i = i + 1;
    }
    assert(body@ =~= without_bom(bytes@));
    let cs = chars_of(rel);
    let m = cs.len();
    let mut yml = false;
    if m >= 4 {
        let tail = lower_chars(&cs.as_slice()[m - 4..m]);
        proof {
            reveal_strlit(".yml");
        }
        yml = chars_eq_str(tail.as_slice(), ".yml");
        assert(cs@.subrange(m - 4, m as int) =~= rel@.subrange(rel@.len() - 4, rel@.len() as int));
    }
    if yml || is_utf8(body.as_slice()) {
        return lossy_string(body.as_slice());
    }
    let mut out = String::new();
    let mut j: usize = 0;
    while j < body.len()
        invariant
            j <= body@.len(),
            out@ == latin1_text(body@.subrange(0, j as int)),
        decreases body@.len() - j,
    {
        push_char(&mut out, body[j] as char);
        assert(latin1_text(body@.subrange(0, j + 1)) =~= latin1_text(body@.subrange(0, j as int)).push(body@[j as int] as char));
        j = j + 1;
    }
    assert(body@.subrange(0, body@.len() as int) =~= body@);
    out
}

} // verus!
