//! Dynamic province names: the `common/province_names/<key>.txt` files that
//! rename provinces per culture, culture group, or country TAG.
//!
//! Each file is keyed by its stem (`swedish.txt` = culture,
//! `latin.txt`/`germanic.txt` = culture group, `ROM.txt`/`BPI.txt` = country
//! TAG). Entries are top-level `<id> = value` where value is either a single
//! quoted string (`236 = "Londra"`) or the capital-pair variant
//! `<id> = { "Name" "Capital" }` (`4775 = { "Lippe" "Detmold" }`). The strings
//! are LITERAL Windows-1252 text, never loc keys, and may carry trailing
//! `# comments`.
//!
//! Reading is byte-faithful (each byte mapped 1:1 to a `char`) so accented
//! names round-trip on display; writing is byte-surgical through
//! [`mod_writer`](crate::mod_writer).

use vstd::prelude::*;
use vstd::string::StringSliceAdditionalSpecFns;
use crate::lexer::{tokenize, tokens, toks_wf, Tok};
use crate::paradox::sym_bounds;
use crate::fields::contains_text;
use crate::mod_writer::{is_latin1, latin1_bytes};
use crate::mechanics::{lemma_lex_irreflexive, lemma_lex_transitive, lex_less, lex_lt};
use crate::rebels::chars_from;
use crate::text::{
    bytes_eq_ignore_case, chars_of, eq_ignore_case, loc_resolve, loc_view, opt_view, parse_unsigned, parse_unsigned_bytes,
    push_char, resolve_spec, string_from_chars, strings_of,
};

verus! {

/// One `<id> = ...` rename entry.
#[derive(Debug, Clone, PartialEq)]
pub struct ProvinceNameEntry {
    pub id: u32,
    /// The province name (first string of the pair variant).
    pub name: String,
    /// The capital-city name, present only for the `{ "Name" "Capital" }` variant.
    pub capital: Option<String>,
}

/// The rename list for one key (culture/group/tag), plus where it lives and
/// whether the file already exists (drives create-vs-append on the first edit).
#[derive(Debug)]
pub struct ProvinceNamesFile {
    pub key: String,
    /// Game-relative path edits target (the real file if present, else the
    /// canonical `common/province_names/<key>.txt`).
    pub source_file: String,
    pub exists: bool,
    pub entries: Vec<ProvinceNameEntry>,
}

/// One assignment of a name to a given province, for the province-panel
/// reverse view ("renamed by N cultures").
#[derive(Debug)]
pub struct ProvinceNameAssignment {
    /// The file's key (culture/group/tag).
    pub key: String,
    /// Localized label for `key` (falls back to the raw key).
    pub label: String,
    /// "culture" | "group" | "tag".
    pub kind: String,
    pub name: String,
    pub capital: Option<String>,
    pub source_file: String,
}

impl ProvinceNameEntry {
    pub open spec fn eview(&self) -> (u32, Seq<char>, Option<Seq<char>>) {
        (self.id, self.name@, match self.capital {
            Some(c) => Some(c@),
            None => None,
        })
    }
}

pub open spec fn entries_view(v: Seq<ProvinceNameEntry>) -> Seq<(u32, Seq<char>, Option<Seq<char>>)> {
    v.map_values(|e: ProvinceNameEntry| e.eview())
}

// ---------------------------------------------------------------------------
// Byte-faithful entry parsing
// ---------------------------------------------------------------------------

/// Windows-1252 text read byte for byte: each byte becomes the char of the
/// same number.
pub open spec fn latin1_text(b: Seq<u8>) -> Seq<char> {
    b.map_values(|x: u8| x as char)
}

/// The bytes of a word token, without its quotes.
pub open spec fn word_bytes(src: Seq<u8>, s: usize, e: usize) -> Seq<u8> {
    src.subrange(sym_bounds(src, s as int, e as int).0, sym_bounds(src, s as int, e as int).1)
}

/// First index at or after `j` holding a `}` token, else the length.
pub open spec fn close_from(toks: Seq<Tok>, j: int) -> int
    decreases toks.len() - j,
{
    if j < 0 || j >= toks.len() {
        toks.len() as int
    } else if toks[j] is Close {
        j
    } else {
        close_from(toks, j + 1)
    }
}

/// The texts of the word tokens in `[a, b)`, in order.
pub open spec fn words_in(src: Seq<u8>, toks: Seq<Tok>, a: int, b: int) -> Seq<Seq<char>>
    decreases b - a,
{
    if b <= a || b > toks.len() {
        Seq::empty()
    } else {
        let rest = words_in(src, toks, a, b - 1);
        match toks[b - 1] {
            Tok::Sym(s, e) => rest.push(latin1_text(word_bytes(src, s, e))),
            _ => rest,
        }
    }
}

pub proof fn lemma_close_from(toks: Seq<Tok>, j: int)
    requires
        0 <= j <= toks.len(),
    ensures
        j <= close_from(toks, j) <= toks.len(),
        forall|k: int| j <= k < close_from(toks, j) ==> !(#[trigger] toks[k] is Close),
        close_from(toks, j) < toks.len() ==> toks[close_from(toks, j)] is Close,
    decreases toks.len() - j,
{
    if j < toks.len() && !(toks[j] is Close) {
        lemma_close_from(toks, j + 1);
    }
}

/// The `<id> = value` entries read from token `i` on: `(id, name, capital)`.
/// A word, then `=`, then either a word (single name) or `{ … }` (the first
/// two words inside are the name and the capital). Entries whose id is not a
/// `u32` are skipped, as is anything else.
pub open spec fn entries_from(src: Seq<u8>, toks: Seq<Tok>, i: int) -> Seq<(u32, Seq<char>, Option<Seq<char>>)>
    decreases toks.len() - i,
{
    if i < 0 || i >= toks.len() {
        Seq::empty()
    } else {
        match toks[i] {
            Tok::Sym(s, e) => {
                if i + 2 >= toks.len() || !(toks[i + 1] is Eq) {
                    entries_from(src, toks, i + 1)
                } else {
                    let id = parse_unsigned(word_bytes(src, s, e), u32::MAX as nat);
                    match toks[i + 2] {
                        Tok::Open(_) => {
                            proof {
                                lemma_close_from(toks, i + 3);
                            }
                            let j = close_from(toks, i + 3);
                            let ws = words_in(src, toks, i + 3, j);
                            let here = match id {
                                Some(v) => seq![(
                                    v as u32,
                                    if ws.len() > 0 { ws[0] } else { Seq::empty() },
                                    if ws.len() > 1 { Some(ws[1]) } else { None },
                                )],
                                None => Seq::empty(),
                            };
                            here + entries_from(src, toks, if j < toks.len() { j + 1 } else { j })
                        },
                        Tok::Sym(vs, ve) => {
                            let here = match id {
                                Some(v) => seq![(v as u32, latin1_text(word_bytes(src, vs, ve)), None)],
                                None => Seq::empty(),
                            };
                            here + entries_from(src, toks, i + 3)
                        },
                        _ => entries_from(src, toks, i + 1),
                    }
                }
            },
            _ => entries_from(src, toks, i + 1),
        }
    }
}

/// The entries of a whole file, in file order.
pub open spec fn entries_spec(src: Seq<u8>) -> Seq<(u32, Seq<char>, Option<Seq<char>>)> {
    entries_from(src, tokens(src), 0)
}

/// The chars of `src[a..b]`, one per byte.
fn latin1_string(src: &[u8], a: usize, b: usize) -> (r: String)
    requires
        a <= b <= src@.len(),
    ensures
        r@ == latin1_text(src@.subrange(a as int, b as int)),
{
    let mut s = String::new();
    let mut k: usize = a;
    while k < b
        invariant
            a <= k <= b,
            b <= src@.len(),
            s@ == latin1_text(src@.subrange(a as int, k as int)),
        decreases b - k,
    {
        push_char(&mut s, src[k] as char);
        assert(latin1_text(src@.subrange(a as int, k + 1)) =~= latin1_text(src@.subrange(a as int, k as int)).push(src@[k as int] as char));
        k = k + 1;
    }
    s
}

fn is_close(t: &Tok) -> (r: bool)
    ensures
        r == (*t is Close),
{
    match t {
        Tok::Close(_) => true,
        _ => false,
    }
}

fn is_eq_tok(t: &Tok) -> (r: bool)
    ensures
        r == (*t is Eq),
{
    match t {
        Tok::Eq(_) => true,
        _ => false,
    }
}

/// Start and end of a word token's text (quotes stripped).
fn word_span(src: &[u8], s: usize, e: usize) -> (r: (usize, usize))
    requires
        s < e <= src@.len(),
    ensures
        r.0 as int == sym_bounds(src@, s as int, e as int).0,
        r.1 as int == sym_bounds(src@, s as int, e as int).1,
        r.0 <= r.1 <= src@.len(),
{
    if src[s] == 34 {
        if e - 1 > s && src[e - 1] == 34 {
            (s + 1, e - 1)
        } else {
            (s + 1, e)
        }
    } else {
        (s, e)
    }
}

/// Parses `<id> = "Name"` / `<id> = { "Name" "Capital" }` entries in file
/// order. Malformed / non-numeric ids are skipped rather than erroring.
pub fn parse_entries(bytes: &[u8]) -> (r: Vec<ProvinceNameEntry>)
    ensures
        entries_view(r@) == entries_spec(bytes@),
{
    let toks = tokenize(bytes);
    let n = toks.len();
    let mut out: Vec<ProvinceNameEntry> = Vec::new();
    let mut i: usize = 0;
    while i < n
        invariant
            n == toks@.len(),
            toks@ == tokens(bytes@),
            toks_wf(bytes@, toks@),
            i <= n,
            entries_view(out@) + entries_from(bytes@, toks@, i as int) == entries_spec(bytes@),
        decreases n - i,
    {
        let ghost before = entries_view(out@);
        match toks[i] {
            Tok::Sym(s, e) => {
                proof {
                    assert(crate::lexer::tok_ok(bytes@, toks@[i as int]));
                }
                let is_eq = i + 1 < n && is_eq_tok(&toks[i + 1]);
                if n - i <= 2 || !is_eq {
                    i = i + 1;
                } else {
                    let (ia, ib) = word_span(bytes, s, e);
                    let id = parse_unsigned_bytes(&bytes[ia..ib], 0xFFFF_FFFFu64);
                    proof {
                        assert(bytes@.subrange(ia as int, ib as int) =~= word_bytes(bytes@, s, e));
                    }
                    match toks[i + 2] {
                        Tok::Open(_) => {
                            let mut words: Vec<String> = Vec::new();
                            let mut j: usize = i + 3;
                            proof {
                                lemma_close_from(toks@, i + 3);
                            }
                            while j < n && !is_close(&toks[j])
                                invariant
                                    n == toks@.len(),
                                    toks_wf(bytes@, toks@),
                                    i + 3 <= j <= n,
                                    close_from(toks@, j as int) == close_from(toks@, i + 3),
                                    words@.map_values(|w: String| w@) == words_in(bytes@, toks@, i + 3, j as int),
                                decreases n - j,
                            {
                                let ghost wprev = words@;
                                match toks[j] {
                                    Tok::Sym(ws, we) => {
                                        proof {
                                            assert(crate::lexer::tok_ok(bytes@, toks@[j as int]));
                                        }
                                        let (wa, wb) = word_span(bytes, ws, we);
                                        let w = latin1_string(bytes, wa, wb);
                                        words.push(w);
                                        proof {
                                            assert(words@.map_values(|w: String| w@) =~= wprev.map_values(|w: String| w@).push(w@));
                                        }
                                    },
                                    _ => {},
                                }
                                j = j + 1;
                            }
                            if let Some(v) = id {
                                let name = if words.len() > 0 { words[0].clone() } else { String::new() };
                                let capital = if words.len() > 1 { Some(words[1].clone()) } else { None };
                                out.push(ProvinceNameEntry { id: v as u32, name, capital });
                            }
                            proof {
                                let ws = words_in(bytes@, toks@, i + 3, j as int);
                                assert(words@.map_values(|w: String| w@).len() == words@.len());
                                if words@.len() > 0 {
                                    assert(ws[0] == words@[0]@);
                                }
                                if words@.len() > 1 {
                                    assert(ws[1] == words@[1]@);
                                }
                            }
                            i = if j < n { j + 1 } else { j };
                        },
                        Tok::Sym(vs, ve) => {
                            proof {
                                assert(crate::lexer::tok_ok(bytes@, toks@[i + 2]));
                            }
                            if let Some(v) = id {
                                let (va, vb) = word_span(bytes, vs, ve);
                                let name = latin1_string(bytes, va, vb);
                                out.push(ProvinceNameEntry { id: v as u32, name, capital: None });
                            }
                            i = i + 3;
                        },
                        _ => {
                            i = i + 1;
                        },
                    }
                }
            },
            _ => {
                i = i + 1;
            },
        }
        assert(entries_view(out@) + entries_from(bytes@, toks@, i as int) =~= entries_spec(bytes@));
    }
    out
}

// ---------------------------------------------------------------------------
// File resolution
// ---------------------------------------------------------------------------

/// The stem of a file name ending in `.txt` or `.TXT` (the first suffix
/// that matches is stripped), as bytes.
pub open spec fn txt_stem(fname: Seq<u8>) -> Option<Seq<u8>> {
    let n = fname.len();
    if n >= 4 && fname.subrange(n - 4, n as int) == seq![46u8, 116u8, 120u8, 116u8] {
        Some(fname.subrange(0, n - 4))
    } else if n >= 4 && fname.subrange(n - 4, n as int) == seq![46u8, 84u8, 88u8, 84u8] {
        Some(fname.subrange(0, n - 4))
    } else {
        None
    }
}

/// Whether the listed file `fname` holds the names for `key`: its stem
/// (without `.txt` / `.TXT`) equals the key ignoring ASCII case, so a TAG
/// file keeps its uppercase stem.
pub fn stem_matches(fname: &str, key: &str) -> (r: bool)
    ensures
        r == (txt_stem(fname.spec_bytes()) matches Some(st) && eq_ignore_case(st, key.spec_bytes())),
{
    let b = fname.as_bytes();
    let n = b.len();
    if n < 4 {
        return false;
    }
    let lower = b[n - 4] == 46 && b[n - 3] == 116 && b[n - 2] == 120 && b[n - 1] == 116;
    let upper = b[n - 4] == 46 && b[n - 3] == 84 && b[n - 2] == 88 && b[n - 1] == 84;
    proof {
        let tail = b@.subrange(n - 4, n as int);
        assert(lower == (tail =~= seq![46u8, 116u8, 120u8, 116u8]));
        assert(upper == (tail =~= seq![46u8, 84u8, 88u8, 84u8]));
    }
    if !lower && !upper {
        return false;
    }
    bytes_eq_ignore_case(&b[0..n - 4], key.as_bytes())
}

/// The rename list for one key, given the listed file that holds it and its
/// bytes, when one was found and read: the real file name is kept for clean
/// diffs; with none, the canonical `common/province_names/<key>.txt` path is
/// synthesized for a first-edit scaffold and the list is empty.
pub fn province_names_for(key: &str, found: Option<(String, Vec<u8>)>) -> (r: ProvinceNamesFile)
    ensures
        r.key@ == key@,
        r.exists == found is Some,
        match found {
            Some((fname, bytes)) => r.source_file@ == "common/province_names/"@ + fname@
                && entries_view(r.entries@) == entries_spec(bytes@),
            None => r.source_file@ == "common/province_names/"@ + key@ + ".txt"@ && r.entries@.len() == 0,
        },
{
    let mut source_file = String::from_str("common/province_names/");
    match found {
        Some((fname, bytes)) => {
            source_file.append(fname.as_str());
            let entries = parse_entries(bytes.as_slice());
            ProvinceNamesFile { key: key.to_string(), source_file, exists: true, entries }
        },
        None => {
            source_file.append(key);
            source_file.append(".txt");
            ProvinceNamesFile { key: key.to_string(), source_file, exists: false, entries: Vec::new() }
        },
    }
}

// ---------------------------------------------------------------------------
// Reverse view: who renames a province
// ---------------------------------------------------------------------------

/// The view of an assignment: key, label, kind, name, capital, source file.
pub open spec fn assign_view(a: ProvinceNameAssignment) -> (Seq<char>, Seq<char>, Seq<char>, Seq<char>, Option<Seq<char>>, Seq<char>) {
    (a.key@, a.label@, a.kind@, a.name@, match a.capital {
        Some(c) => Some(c@),
        None => None,
    }, a.source_file@)
}

pub open spec fn assigns_view(v: Seq<ProvinceNameAssignment>) -> Seq<(Seq<char>, Seq<char>, Seq<char>, Seq<char>, Option<Seq<char>>, Seq<char>)> {
    v.map_values(|a: ProvinceNameAssignment| assign_view(a))
}

/// The stem of a file name ending in `.txt` or `.TXT`, as text.
pub open spec fn name_stem(f: Seq<char>) -> Option<Seq<char>> {
    if f.len() >= 4 && (f.subrange(f.len() - 4, f.len() as int) == ".txt"@ || f.subrange(f.len() - 4, f.len() as int) == ".TXT"@) {
        Some(f.subrange(0, f.len() - 4))
    } else {
        None
    }
}

/// The first entry for province `id`, at or after `j`.
pub open spec fn entry_for(es: Seq<(u32, Seq<char>, Option<Seq<char>>)>, id: u32, j: int) -> Option<(u32, Seq<char>, Option<Seq<char>>)>
    decreases es.len() - j,
{
    if j < 0 || j >= es.len() {
        None
    } else if es[j].0 == id {
        Some(es[j])
    } else {
        entry_for(es, id, j + 1)
    }
}

/// The kind of a name file's key: a culture, a culture group, else a tag.
pub open spec fn kind_of(key: Seq<char>, cultures: Seq<Seq<char>>, groups: Seq<Seq<char>>) -> Seq<char> {
    if cultures.contains(key) {
        "culture"@
    } else if groups.contains(key) {
        "group"@
    } else {
        "tag"@
    }
}

/// The order of kinds: cultures, then groups, then tags.
pub open spec fn kind_rank(kind: Seq<char>) -> int {
    if kind == "culture"@ {
        0
    } else if kind == "group"@ {
        1
    } else {
        2
    }
}

/// The assignment a listed name file `(fname, bytes)` makes for province
/// `id`: none when the file is not `.txt`/`.TXT` or has no entry for it;
/// else its key (the stem), the key localized, its kind, the first entry's
/// name and capital, and the file's path.
pub open spec fn assignment_of(
    loc: Seq<(Seq<char>, Seq<char>)>,
    cultures: Seq<Seq<char>>,
    groups: Seq<Seq<char>>,
    id: u32,
    fname: Seq<char>,
    bytes: Seq<u8>,
) -> Option<(Seq<char>, Seq<char>, Seq<char>, Seq<char>, Option<Seq<char>>, Seq<char>)> {
    match name_stem(fname) {
        None => None,
        Some(stem) => match entry_for(entries_spec(bytes), id, 0) {
            None => None,
            Some(e) => Some((stem, resolve_spec(loc, stem), kind_of(stem, cultures, groups), e.1, e.2, "common/province_names/"@ + fname)),
        },
    }
}

/// The assignments of the listed files, in listing order.
pub open spec fn assignments_found(
    loc: Seq<(Seq<char>, Seq<char>)>,
    cultures: Seq<Seq<char>>,
    groups: Seq<Seq<char>>,
    id: u32,
    files: Seq<(Seq<char>, Seq<u8>)>,
) -> Seq<(Seq<char>, Seq<char>, Seq<char>, Seq<char>, Option<Seq<char>>, Seq<char>)>
    decreases files.len(),
{
    if files.len() == 0 {
        Seq::empty()
    } else {
        let rest = assignments_found(loc, cultures, groups, id, files.drop_last());
        match assignment_of(loc, cultures, groups, id, files.last().0, files.last().1) {
            Some(a) => rest.push(a),
            None => rest,
        }
    }
}

/// Whether `a` sorts strictly before `b`: by kind rank, then by key.
pub open spec fn assign_before(
    a: (Seq<char>, Seq<char>, Seq<char>, Seq<char>, Option<Seq<char>>, Seq<char>),
    b: (Seq<char>, Seq<char>, Seq<char>, Seq<char>, Option<Seq<char>>, Seq<char>),
) -> bool {
    kind_rank(a.2) < kind_rank(b.2) || (kind_rank(a.2) == kind_rank(b.2) && lex_lt(a.0, b.0))
}

/// Where a stable sort places `x` after `t`.
pub open spec fn assign_slot_from(
    t: Seq<(Seq<char>, Seq<char>, Seq<char>, Seq<char>, Option<Seq<char>>, Seq<char>)>,
    x: (Seq<char>, Seq<char>, Seq<char>, Seq<char>, Option<Seq<char>>, Seq<char>),
    j: int,
) -> int
    decreases t.len() - j,
{
    if j < 0 || j >= t.len() {
        t.len() as int
    } else if assign_before(x, t[j]) {
        j
    } else {
        assign_slot_from(t, x, j + 1)
    }
}

/// The stable sort by kind rank, then key.
pub open spec fn sort_assignments(
    s: Seq<(Seq<char>, Seq<char>, Seq<char>, Seq<char>, Option<Seq<char>>, Seq<char>)>,
) -> Seq<(Seq<char>, Seq<char>, Seq<char>, Seq<char>, Option<Seq<char>>, Seq<char>)>
    decreases s.len(),
{
    if s.len() == 0 {
        s
    } else {
        let t = sort_assignments(s.drop_last());
        t.insert(assign_slot_from(t, s.last(), 0), s.last())
    }
}

fn stem_text(f: &str) -> (r: Option<String>)
    ensures
        opt_view(r) == name_stem(f@),
{
    let cs = chars_of(f);
    let n = cs.len();
    proof {
        reveal_strlit(".txt");
        reveal_strlit(".TXT");
    }
    if n < 4 {
        return None;
    }
    let ghost tail = cs@.subrange(n - 4, n as int);
    assert(tail[0] == cs@[n - 4] && tail[1] == cs@[n - 3] && tail[2] == cs@[n - 2] && tail[3] == cs@[n - 1]);
    let lower = cs[n - 4] == '.' && cs[n - 3] == 't' && cs[n - 2] == 'x' && cs[n - 1] == 't';
    let upper = cs[n - 4] == '.' && cs[n - 3] == 'T' && cs[n - 2] == 'X' && cs[n - 1] == 'T';
    assert(lower == (tail =~= ".txt"@));
    assert(upper == (tail =~= ".TXT"@));
    if !lower && !upper {
        return None;
    }
    let st = chars_from(&cs, 0, n - 4);
    Some(string_from_chars(st.as_slice()))
}

fn kind_text(key: &str, cultures: &Vec<String>, groups: &Vec<String>) -> (r: (String, u8))
    ensures
        r.0@ == kind_of(key@, strings_of(cultures@), strings_of(groups@)),
        r.1 as int == kind_rank(r.0@),
{
    proof {
        reveal_strlit("culture");
        reveal_strlit("group");
        reveal_strlit("tag");
    }
    if contains_text(cultures, key) {
        (String::from_str("culture"), 0)
    } else if contains_text(groups, key) {
        (String::from_str("group"), 1)
    } else {
        assert("tag"@ != "culture"@ && "tag"@ != "group"@) by {
            assert("tag"@.len() != "culture"@.len());
            assert("tag"@[0] != "group"@[0]);
        }
        (String::from_str("tag"), 2)
    }
}

/// The assignment one listed name file makes for province `id` (see
/// [`assignment_of`]), with its kind rank.
fn assignment_in_file(
    loc: &[(String, String)],
    cultures: &Vec<String>,
    groups: &Vec<String>,
    id: u32,
    fname: &str,
    bytes: &[u8],
) -> (r: Option<(ProvinceNameAssignment, u8)>)
    ensures
        match r {
            Some((a, rank)) => assignment_of(loc_view(loc@), strings_of(cultures@), strings_of(groups@), id, fname@, bytes@)
                == Some(assign_view(a)) && rank as int == kind_rank(a.kind@),
            None => assignment_of(loc_view(loc@), strings_of(cultures@), strings_of(groups@), id, fname@, bytes@) is None,
        },
{
    let stem = match stem_text(fname) {
        Some(s) => s,
        None => return None,
    };
    let mut entries = parse_entries(bytes);
    let ghost es = entries_view(entries@);
    let mut j: usize = 0;
    while j < entries.len() && entries[j].id != id
        invariant
            j <= entries@.len(),
            es == entries_view(entries@),
            es.len() == entries@.len(),
            entry_for(es, id, j as int) == entry_for(es, id, 0),
        decreases entries@.len() - j,
    {
        assert(es[j as int] == entries@[j as int].eview());
        j = j + 1;
    }
    if j == entries.len() {
        return None;
    }
    assert(es[j as int] == entries@[j as int].eview());
    let e = entries.remove(j);
    let (kind, rank) = kind_text(stem.as_str(), cultures, groups);
    let mut source_file = String::from_str("common/province_names/");
    source_file.append(fname);
    let label = loc_resolve(loc, stem.as_str());
    Some((ProvinceNameAssignment { key: stem, label, kind, name: e.name, capital: e.capital, source_file }, rank))
}

/// Every assignment of a name to province `id` by the listed name files
/// `(fname, bytes)` (as listed and read), given the culture and culture
/// group keys: cultures first, then groups, then tags, each by key (stably).
pub fn assignments_for(
    files: &Vec<(String, Vec<u8>)>,
    loc: &[(String, String)],
    cultures: &Vec<String>,
    groups: &Vec<String>,
    id: u32,
) -> (r: Vec<ProvinceNameAssignment>)
    ensures
        assigns_view(r@) == sort_assignments(
            assignments_found(loc_view(loc@), strings_of(cultures@), strings_of(groups@), id, files@.map_values(|f: (String, Vec<u8>)| (f.0@, f.1@))),
        ),
{
    let ghost fv = files@.map_values(|f: (String, Vec<u8>)| (f.0@, f.1@));
    let ghost lv = loc_view(loc@);
    let ghost cv = strings_of(cultures@);
    let ghost gv = strings_of(groups@);
    let mut out: Vec<ProvinceNameAssignment> = Vec::new();
    let mut ranks: Vec<u8> = Vec::new();
    let mut i: usize = 0;
    assert(fv.take(0) =~= Seq::<(Seq<char>, Seq<u8>)>::empty());
    while i < files.len()
        invariant
            i <= files@.len(),
            fv == files@.map_values(|f: (String, Vec<u8>)| (f.0@, f.1@)),
            fv.len() == files@.len(),
            lv == loc_view(loc@),
            cv == strings_of(cultures@),
            gv == strings_of(groups@),
            ranks@.len() == out@.len(),
            forall|k: int| 0 <= k < out@.len() ==> #[trigger] ranks@[k] as int == kind_rank(out@[k].kind@),
            assigns_view(out@) == sort_assignments(assignments_found(lv, cv, gv, id, fv.take(i as int))),
        decreases files@.len() - i,
    {
        assert(fv.take(i + 1).drop_last() =~= fv.take(i as int));
        assert(fv.take(i + 1).last() == fv[i as int]);
        assert(fv[i as int] == (files@[i as int].0@, files@[i as int].1@));
        let found = assignment_in_file(loc, cultures, groups, id, files[i].0.as_str(), files[i].1.as_slice());
        let ghost prev = assignments_found(lv, cv, gv, id, fv.take(i as int));
        match found {
            Some((a, rank)) => {
                let ghost t = assigns_view(out@);
                let ghost x = assign_view(a);
                let mut j: usize = 0;
                loop
                    invariant
                        j <= out@.len(),
                        t == assigns_view(out@),
                        x == assign_view(a),
                        rank as int == kind_rank(a.kind@),
                        ranks@.len() == out@.len(),
                        forall|k: int| 0 <= k < out@.len() ==> #[trigger] ranks@[k] as int == kind_rank(out@[k].kind@),
                        assign_slot_from(t, x, j as int) == assign_slot_from(t, x, 0),
                    ensures
                        j <= out@.len(),
                        assign_slot_from(t, x, j as int) == j,
                    decreases out@.len() - j,
                {
                    if j >= out.len() {
                        break;
                    }
                    assert(t[j as int] == assign_view(out@[j as int]));
                    assert(ranks@[j as int] as int == kind_rank(out@[j as int].kind@));
                    let r2 = ranks[j];
                    let before = rank < r2 || (rank == r2 && lex_less(a.key.as_str(), out[j].key.as_str()));
                    if before {
                        break;
                    }
                    j = j + 1;
                }
                let ghost old_ranks = ranks@;
                let ghost old_out = out@;
                out.insert(j, a);
                ranks.insert(j, rank);
                assert forall|k: int| 0 <= k < out@.len() implies #[trigger] ranks@[k] as int == kind_rank(out@[k].kind@) by {
                    if k < j {
                        assert(ranks@[k] == old_ranks[k] && out@[k] == old_out[k]);
                    } else if k > j {
                        assert(ranks@[k] == old_ranks[k - 1] && out@[k] == old_out[k - 1]);
                    }
                }
                assert(assigns_view(out@) =~= t.insert(j as int, x));
                assert(assignments_found(lv, cv, gv, id, fv.take(i + 1)) == prev.push(x));
                assert(prev.push(x).drop_last() =~= prev);
            },
            None => {
                assert(assignments_found(lv, cv, gv, id, fv.take(i + 1)) == prev);
            },
        }
        i = i + 1;
    }
    assert(fv.take(files@.len() as int) =~= fv);
    out
}

proof fn lemma_assign_slot(
    t: Seq<(Seq<char>, Seq<char>, Seq<char>, Seq<char>, Option<Seq<char>>, Seq<char>)>,
    x: (Seq<char>, Seq<char>, Seq<char>, Seq<char>, Option<Seq<char>>, Seq<char>),
    j: int,
)
    requires
        0 <= j <= t.len(),
    ensures
        j <= assign_slot_from(t, x, j) <= t.len(),
        forall|k: int| j <= k < assign_slot_from(t, x, j) ==> !assign_before(x, #[trigger] t[k]),
        assign_slot_from(t, x, j) < t.len() ==> assign_before(x, t[assign_slot_from(t, x, j)]),
    decreases t.len() - j,
{
    if j < t.len() && !assign_before(x, t[j]) {
        lemma_assign_slot(t, x, j + 1);
    }
}

proof fn lemma_assign_order(
    a: (Seq<char>, Seq<char>, Seq<char>, Seq<char>, Option<Seq<char>>, Seq<char>),
    b: (Seq<char>, Seq<char>, Seq<char>, Seq<char>, Option<Seq<char>>, Seq<char>),
    c: (Seq<char>, Seq<char>, Seq<char>, Seq<char>, Option<Seq<char>>, Seq<char>),
)
    ensures
        !assign_before(a, a),
        assign_before(a, b) && assign_before(b, c) ==> assign_before(a, c),
{
    lemma_lex_irreflexive(a.0);
    if assign_before(a, b) && assign_before(b, c) && kind_rank(a.2) == kind_rank(b.2) && kind_rank(b.2) == kind_rank(c.2) {
        lemma_lex_transitive(a.0, b.0, c.0);
    }
}

/// The reverse view comes out ordered: cultures, then groups, then tags,
/// each by key; one assignment per file found.
pub proof fn lemma_assignments_sorted(s: Seq<(Seq<char>, Seq<char>, Seq<char>, Seq<char>, Option<Seq<char>>, Seq<char>)>)
    ensures
        forall|i: int, j: int| 0 <= i < j < sort_assignments(s).len()
            ==> !assign_before(#[trigger] sort_assignments(s)[j], #[trigger] sort_assignments(s)[i]),
        sort_assignments(s).len() == s.len(),
    decreases s.len(),
{
    if s.len() > 0 {
        lemma_assignments_sorted(s.drop_last());
        let t = sort_assignments(s.drop_last());
        let x = s.last();
        lemma_assign_slot(t, x, 0);
        let p = assign_slot_from(t, x, 0);
        let r = t.insert(p, x);
        assert forall|i: int, j: int| 0 <= i < j < r.len() implies !assign_before(#[trigger] r[j], #[trigger] r[i]) by {
            if j == p {
                assert(r[i] == t[i]);
            } else if i == p {
                assert(r[j] == t[j - 1]);
                lemma_assign_order(t[j - 1], x, t[p]);
                lemma_assign_order(t[p], t[p], t[p]);
                if j - 1 > p {
                    assert(!assign_before(t[j - 1], t[p]));
                }
            } else {
                let i2 = if i < p { i } else { i - 1 };
                let j2 = if j < p { j } else { j - 1 };
                assert(r[i] == t[i2]);
                assert(r[j] == t[j2]);
            }
        }
    }
}

/// A name the writer encodes as Latin-1 reads back unchanged: decoding the
/// Latin-1 bytes of a Latin-1 text gives the text.
pub proof fn lemma_latin1_round_trip(t: Seq<char>)
    requires
        is_latin1(t),
    ensures
        latin1_text(latin1_bytes(t)) == t,
{
    assert forall|i: int| 0 <= i < t.len() implies #[trigger] latin1_text(latin1_bytes(t))[i] == t[i] by {
        let c = t[i];
        let u = c as u32;
        vstd::utf8::char_u32_cast(c, u);
        assert(u < 256);
        assert((u as u8) as u32 == u);
        assert(latin1_bytes(t)[i] == u as u8);
        assert(((u as u8) as char) == (u as char));
    }
    assert(latin1_text(latin1_bytes(t)) =~= t);
}

} // verus!
