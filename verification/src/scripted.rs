//! Scripted triggers / scripted effects: the definition registry.
//!
//! `common/scripted_triggers/*.txt` and `common/scripted_effects/*.txt` each
//! hold a flat series of `<name> = { <body> }` definitions. The body is
//! trigger-shaped (scripted_triggers) or effect-shaped (scripted_effects) and
//! may contain `$PARAMETER$` meta-script tokens pasted in at each call site.
//!
//! The registry resolves a tree key that calls a scripted trigger/effect to
//! its definition, so a tree renders it as a jump link. The body itself is
//! edited through the script-tree machinery at path `[name]`. This module
//! enumerates the definitions of one file (name, kind, file, origin, path,
//! `$PARAM$` tokens) and builds the create scaffold; listing the folders is the
//! caller's part.

use vstd::prelude::*;
use crate::mod_writer::{block_children, child_spans, SpanView};
use crate::province_names::latin1_text;
use crate::script_tree::{trim_chars, trim_spec};
use crate::text::{chars_of, lossy_string, lossy_utf8, push_char, str_eq, string_from_chars, strings_of};

verus! {

/// Toolkit-owned project file new scripted triggers scaffold into.
pub const TRIGGERS_FILE: &'static str = "common/scripted_triggers/zz_eutoolkit_scripted_triggers.txt";

/// Toolkit-owned project file new scripted effects scaffold into.
pub const EFFECTS_FILE: &'static str = "common/scripted_effects/zz_eutoolkit_scripted_effects.txt";

/// One scripted trigger or scripted effect definition.
#[derive(Debug)]
pub struct ScriptedDef {
    /// The definition name (`has_mil_advisor`), also the call-site key.
    pub name: String,
    /// `trigger` | `effect`.
    pub kind: String,
    /// Game-relative file the definition was found in.
    pub file: String,
    /// `base` | `mod`.
    pub origin: String,
    /// Byte-surgical path to the definition body (`[name]`).
    pub path: Vec<String>,
    /// Distinct `$PARAM$` meta-script tokens referenced in the body.
    pub params: Vec<String>,
    /// Line count of the body (a cheap size hint for the list).
    pub line_count: usize,
}

/// A create scaffold: the file to write and the statement to insert.
#[derive(Debug)]
pub struct ScriptedScaffold {
    pub file: String,
    pub statement: String,
}

// ---------------------------------------------------------------------------
// `$PARAM$` tokens
// ---------------------------------------------------------------------------

/// `u8::is_ascii_alphanumeric` or `_`.
pub open spec fn is_word_byte(b: u8) -> bool {
    (48 <= b <= 57) || (65 <= b <= 90) || (97 <= b <= 122) || b == 95
}

/// First index at or after `j` that is not a word byte, else the length.
pub open spec fn word_bytes_end(b: Seq<u8>, j: int) -> int
    decreases b.len() - j,
{
    if j < 0 || j >= b.len() || !is_word_byte(b[j]) {
        j
    } else {
        word_bytes_end(b, j + 1)
    }
}

pub proof fn lemma_word_bytes_end(b: Seq<u8>, j: int)
    requires
        0 <= j <= b.len(),
    ensures
        j <= word_bytes_end(b, j) <= b.len(),
        forall|k: int| j <= k < word_bytes_end(b, j) ==> is_word_byte(#[trigger] b[k]),
    decreases b.len() - j,
{
    if j < b.len() && is_word_byte(b[j]) {
        lemma_word_bytes_end(b, j + 1);
    }
}

/// The `$WORD$` tokens found from byte `i` on, appended to `acc` when not
/// already there: a `$`, one or more word bytes, and a closing `$`.
pub open spec fn params_from(b: Seq<u8>, i: int, acc: Seq<Seq<char>>) -> Seq<Seq<char>>
    decreases b.len() - i,
{
    if i < 0 || i >= b.len() {
        acc
    } else if b[i] == 36 {
        proof {
            lemma_word_bytes_end(b, i + 1);
        }
        let j = word_bytes_end(b, i + 1);
        if j < b.len() && b[j] == 36 && j > i + 1 {
            let tok = latin1_text(b.subrange(i + 1, j));
            params_from(b, j + 1, if acc.contains(tok) { acc } else { acc.push(tok) })
        } else {
            params_from(b, i + 1, acc)
        }
    } else {
        params_from(b, i + 1, acc)
    }
}

/// The distinct `$WORD$` tokens of the text, in first-seen order.
pub open spec fn params_spec(text: Seq<char>) -> Seq<Seq<char>> {
    params_from(vstd::utf8::encode_utf8(text), 0, Seq::empty())
}

/// Tokens are listed once each: scanning keeps a list without repeats free
/// of repeats.
pub proof fn lemma_params_distinct(b: Seq<u8>, i: int, acc: Seq<Seq<char>>)
    requires
        acc.no_duplicates(),
    ensures
        params_from(b, i, acc).no_duplicates(),
        forall|t: Seq<char>| acc.contains(t) ==> #[trigger] params_from(b, i, acc).contains(t),
    decreases b.len() - i,
{
    if 0 <= i < b.len() {
        if b[i] == 36 {
            lemma_word_bytes_end(b, i + 1);
            let j = word_bytes_end(b, i + 1);
            if j < b.len() && b[j] == 36 && j > i + 1 {
                let tok = latin1_text(b.subrange(i + 1, j));
                let next = if acc.contains(tok) { acc } else { acc.push(tok) };
                assert(next.no_duplicates()) by {
                    if !acc.contains(tok) {
                        assert forall|x: int, y: int| 0 <= x < y < next.len() implies next[x] != next[y] by {
                            if y == acc.len() {
                                assert(acc[x] == next[x]);
                            }
                        }
                    }
                }
                assert forall|t: Seq<char>| acc.contains(t) implies next.contains(t) by {
                    if !acc.contains(tok) {
                        let k = choose|k: int| 0 <= k < acc.len() && acc[k] == t;
                        assert(next[k] == t);
                    }
                }
                lemma_params_distinct(b, j + 1, next);
            } else {
                lemma_params_distinct(b, i + 1, acc);
            }
        } else {
            lemma_params_distinct(b, i + 1, acc);
        }
    }
}

fn is_word_byte_exec(b: u8) -> (r: bool)
    ensures
        r == is_word_byte(b),
{
    (48 <= b && b <= 57) || (65 <= b && b <= 90) || (97 <= b && b <= 122) || b == 95
}

fn contains_string(v: &Vec<String>, s: &String) -> (r: bool)
    ensures
        r == strings_of(v@).contains(s@),
{
    let mut i: usize = 0;
    while i < v.len()
        invariant
            i <= v@.len(),
            forall|k: int| 0 <= k < i ==> v@[k]@ != s@,
        decreases v@.len() - i,
    {
        if str_eq(v[i].as_str(), s.as_str()) {
            assert(strings_of(v@)[i as int] == s@);
            return true;
        }
        i = i + 1;
    }
    proof {
        if strings_of(v@).contains(s@) {
            let k = choose|k: int| 0 <= k < strings_of(v@).len() && strings_of(v@)[k] == s@;
            assert(v@[k]@ == s@);
        }
    }
    false
}

/// Scans `text` for distinct `$WORD$` meta-script tokens (returned without
/// the surrounding `$`, first-seen order preserved).
pub fn scan_params(text: &str) -> (r: Vec<String>)
    ensures
        strings_of(r@) == params_spec(text@),
        strings_of(r@).no_duplicates(),
{
    let b = text.as_bytes();
    let n = b.len();
    let mut out: Vec<String> = Vec::new();
    let mut i: usize = 0;
    proof {
        assert(strings_of(out@) =~= Seq::<Seq<char>>::empty());
        lemma_params_distinct(b@, 0, Seq::empty());
    }
    while i < n
        invariant
            n == b@.len(),
            b@ == vstd::utf8::encode_utf8(text@),
            i <= n,
            params_from(b@, i as int, strings_of(out@)) == params_spec(text@),
        decreases n - i,
    {
        if b[i] == 36 {
            proof {
                lemma_word_bytes_end(b@, i + 1);
            }
            let start = i + 1;
            let mut j = start;
            while j < n && is_word_byte_exec(b[j])
                invariant
                    start <= j <= n,
                    n == b@.len(),
                    word_bytes_end(b@, j as int) == word_bytes_end(b@, start as int),
                decreases n - j,
            {
                j = j + 1;
            }
            if j < n && b[j] == 36 && j > start {
                let mut tok = String::new();
                let mut k = start;
                while k < j
                    invariant
                        start <= k <= j,
                        j <= n,
                        n == b@.len(),
                        tok@ == latin1_text(b@.subrange(start as int, k as int)),
                    decreases j - k,
                {
                    push_char(&mut tok, b[k] as char);
                    assert(latin1_text(b@.subrange(start as int, k + 1)) =~= latin1_text(b@.subrange(start as int, k as int)).push(b@[k as int] as char));
                    k = k + 1;
                }
                if !contains_string(&out, &tok) {
                    let ghost before = out@;
                    out.push(tok);
                    assert(strings_of(out@) =~= strings_of(before).push(tok@));
                }
                i = j + 1;
                continue;
            }
        }
        i = i + 1;
    }
    proof {
        lemma_params_distinct(b@, 0, Seq::empty());
    }
    out
}

// ---------------------------------------------------------------------------
// Definitions of one file
// ---------------------------------------------------------------------------

/// The number of line feeds in the text.
pub open spec fn count_newlines(s: Seq<char>) -> nat
    decreases s.len(),
{
    if s.len() == 0 {
        0
    } else {
        count_newlines(s.drop_last()) + if s.last() == '\n' { 1nat } else { 0nat }
    }
}

/// `str::lines().count()`: one line per line feed, plus an unterminated last
/// line; none for the empty text.
pub open spec fn lines_count(s: Seq<char>) -> nat {
    if s.len() == 0 {
        0
    } else {
        count_newlines(s) + if s.last() == '\n' { 0nat } else { 1nat }
    }
}

/// The view of one definition: name, kind, file, origin, path, params,
/// line count.
pub open spec fn def_view(d: ScriptedDef) -> (Seq<char>, Seq<char>, Seq<char>, Seq<char>, Seq<Seq<char>>, Seq<Seq<char>>, nat) {
    (d.name@, d.kind@, d.file@, d.origin@, strings_of(d.path@), strings_of(d.params@), d.line_count as nat)
}

pub open spec fn defs_view(v: Seq<ScriptedDef>) -> Seq<(Seq<char>, Seq<char>, Seq<char>, Seq<char>, Seq<Seq<char>>, Seq<Seq<char>>, nat)> {
    v.map_values(|d: ScriptedDef| def_view(d))
}

/// The body text of a child's value.
pub open spec fn body_text(src: Seq<u8>, c: SpanView) -> Seq<char> {
    lossy_utf8(src.subrange(c.value_span.0 as int, c.value_span.1 as int))
}

/// The definitions among the top-level children `sp`: every keyed block,
/// first occurrence of its name only (the earlier one wins in game).
pub open spec fn defs_from(src: Seq<u8>, sp: Seq<SpanView>, kind: Seq<char>, file: Seq<char>, origin: Seq<char>) -> Seq<(Seq<char>, Seq<char>, Seq<char>, Seq<char>, Seq<Seq<char>>, Seq<Seq<char>>, nat)>
    decreases sp.len(),
{
    if sp.len() == 0 {
        Seq::empty()
    } else {
        let rest = defs_from(src, sp.drop_last(), kind, file, origin);
        let c = sp.last();
        if c.key is Some && c.is_block && c.occurrence == 0 {
            let name = c.key->0;
            let body = body_text(src, c);
            let lines = lines_count(body);
            rest.push((name, kind, file, origin, seq![name], params_spec(body), if lines > 1 { lines } else { 1nat }))
        } else {
            rest
        }
    }
}

/// The definitions of one file.
pub open spec fn file_defs_spec(src: Seq<u8>, kind: Seq<char>, file: Seq<char>, origin: Seq<char>) -> Seq<(Seq<char>, Seq<char>, Seq<char>, Seq<char>, Seq<Seq<char>>, Seq<Seq<char>>, nat)> {
    match child_spans(src, Seq::empty()) {
        Some(sp) => defs_from(src, sp, kind, file, origin),
        None => Seq::empty(),
    }
}

proof fn lemma_newlines_len(s: Seq<char>)
    ensures
        count_newlines(s) <= s.len(),
    decreases s.len(),
{
    if s.len() > 0 {
        lemma_newlines_len(s.drop_last());
    }
}

fn count_lines(text: &str) -> (r: usize)
    ensures
        r as nat == lines_count(text@),
{
    let cs = chars_of(text);
    let mut n: usize = 0;
    let mut i: usize = 0;
    while i < cs.len()
        invariant
            i <= cs@.len(),
            n <= i,
            n as nat == count_newlines(cs@.subrange(0, i as int)),
        decreases cs@.len() - i,
    {
        assert(cs@.subrange(0, i + 1).drop_last() =~= cs@.subrange(0, i as int));
        if cs[i] == '\n' {
            n = n + 1;
        }
        i = i + 1;
    }
    assert(cs@.subrange(0, cs@.len() as int) =~= cs@);
    if cs.len() == 0 {
        0
    } else if cs[cs.len() - 1] == '\n' {
        n
    } else {
        proof {
            lemma_newlines_len(cs@.drop_last());
        }
        n + 1
    }
}

/// Every scripted trigger/effect definition of one file: its top-level
/// `<name> = { … }` blocks (a repeated name lists only its first block).
/// `kind`, `file` and `origin` are recorded on each.
pub fn file_definitions(bytes: &[u8], kind: &str, file: &str, origin: &str) -> (r: Vec<ScriptedDef>)
    ensures
        defs_view(r@) == file_defs_spec(bytes@, kind@, file@, origin@),
{
    let empty: Vec<String> = Vec::new();
    assert(crate::mod_writer::string_path(empty@) =~= Seq::<Seq<u8>>::empty());
    let kids = match block_children(bytes, empty.as_slice()) {
        Some(k) => k,
        None => return Vec::new(),
    };
    let ghost sp = crate::mod_writer::spans_view(kids@);
    let mut out: Vec<ScriptedDef> = Vec::new();
    let mut i: usize = 0;
    while i < kids.len()
        invariant
            i <= kids@.len(),
            sp == crate::mod_writer::spans_view(kids@),
            forall|j: int| 0 <= j < kids@.len() ==> {
                let c = #[trigger] kids@[j];
                &&& c.value_span.0 < c.value_span.1 <= bytes@.len()
            },
            defs_view(out@) == defs_from(bytes@, sp.subrange(0, i as int), kind@, file@, origin@),
        decreases kids@.len() - i,
    {
        let c = &kids[i];
        let ghost before = out@;
        proof {
            assert(sp.subrange(0, i + 1).drop_last() =~= sp.subrange(0, i as int));
            assert(sp.subrange(0, i + 1).last() == c.sview());
        }
        match &c.key {
            Some(name) => {
                if c.is_block && c.occurrence == 0 {
                    let body = lossy_string(&bytes[c.value_span.0..c.value_span.1]);
                    let params = scan_params(body.as_str());
                    let lines = count_lines(body.as_str());
                    let mut path: Vec<String> = Vec::new();
                    path.push(name.clone());
                    let d = ScriptedDef {
                        name: name.clone(),
                        kind: kind.to_string(),
                        file: file.to_string(),
                        origin: origin.to_string(),
                        path,
                        params,
                        line_count: if lines > 1 { lines } else { 1 },
                    };
                    out.push(d);
                    proof {
                        assert(strings_of(out@.last().path@) =~= seq![name@]);
                        assert(defs_view(out@) =~= defs_view(before).push(def_view(out@.last())));
                    }
                }
            },
            None => {},
        }
        i = i + 1;
    }
    assert(sp.subrange(0, kids@.len() as int) =~= sp);
    out
}

// ---------------------------------------------------------------------------
// Create scaffold
// ---------------------------------------------------------------------------

/// A bare identifier: one or more ASCII letters, digits or underscores.
pub open spec fn is_identifier(s: Seq<char>) -> bool {
    s.len() > 0 && forall|i: int| 0 <= i < s.len() ==> {
        let c = #[trigger] s[i];
        ('0' <= c <= '9') || ('A' <= c <= 'Z') || ('a' <= c <= 'z') || c == '_'
    }
}

/// What [`scaffold_scripted`] gives for `kind` and `name`.
pub open spec fn scaffold_spec(kind: Seq<char>, name: Seq<char>) -> Result<(Seq<char>, Seq<char>), Seq<char>> {
    let n = trim_spec(name, false);
    if !is_identifier(n) {
        Err("Name must be a bare identifier (letters, digits, underscore)."@)
    } else if kind == "trigger"@ {
        Ok((TRIGGERS_FILE@, n + " = {\n"@ + "\talways = yes\n"@ + "}"@))
    } else if kind == "effect"@ {
        Ok((EFFECTS_FILE@, n + " = {\n"@ + "\tadd_prestige = 0\n"@ + "}"@))
    } else {
        Err("Unknown scripted kind: "@ + kind)
    }
}

pub(crate) fn identifier_chars(cs: &[char]) -> (r: bool)
    ensures
        r == is_identifier(cs@),
{
    if cs.len() == 0 {
        return false;
    }
    let mut i: usize = 0;
    while i < cs.len()
        invariant
            i <= cs@.len(),
            forall|k: int| 0 <= k < i ==> {
                let c = #[trigger] cs@[k];
                ('0' <= c <= '9') || ('A' <= c <= 'Z') || ('a' <= c <= 'z') || c == '_'
            },
        decreases cs@.len() - i,
    {
        let c = cs[i];
        if !(('0' <= c && c <= '9') || ('A' <= c && c <= 'Z') || ('a' <= c && c <= 'z') || c == '_') {
            return false;
        }
        i = i + 1;
    }
    true
}

/// Scaffolds a new scripted trigger/effect: the toolkit project file and the
/// `<name> = { … }` statement to insert (into an existing toolkit file, else
/// as a new file). `kind` is `trigger` or `effect`; the name is trimmed and
/// must be a bare identifier.
pub fn scaffold_scripted(kind: String, name: String) -> (r: Result<ScriptedScaffold, String>)
    ensures
        match (r, scaffold_spec(kind@, name@)) {
            (Ok(sc), Ok((f, st))) => sc.file@ == f && sc.statement@ == st,
            (Err(m), Err(w)) => m@ == w,
            _ => false,
        },
{
    let cs = chars_of(name.as_str());
    let trimmed = trim_chars(cs.as_slice(), false);
    if !identifier_chars(trimmed.as_slice()) {
        return Err(String::from_str("Name must be a bare identifier (letters, digits, underscore)."));
    }
    let is_trigger = str_eq(kind.as_str(), "trigger");
    let is_effect = str_eq(kind.as_str(), "effect");
    if !is_trigger && !is_effect {
        let mut m = String::from_str("Unknown scripted kind: ");
        m.append(kind.as_str());
        return Err(m);
    }
    let mut statement = string_from_chars(trimmed.as_slice());
    statement.append(" = {\n");
    if is_trigger {
        statement.append("\talways = yes\n");
    } else {
        statement.append("\tadd_prestige = 0\n");
    }
    statement.append("}");
    let file = if is_trigger { String::from_str(TRIGGERS_FILE) } else { String::from_str(EFFECTS_FILE) };
    Ok(ScriptedScaffold { file, statement })
}

} // verus!
