//! Writes edits back into game files surgically: only the edited byte span
//! changes, so hand-written formatting, comments, and Windows-1252 characters
//! all round-trip untouched.
//!
//! A small byte-span toolkit ([`Edit`] + [`apply`]) of pure `&[u8] -> Vec<u8>`
//! transforms: scalar replace, key/statement add & remove, block insert &
//! delete, id-list splice, append, whole-file scaffold. Every untouched byte
//! round-trips; inserted text is encoded as Latin-1, never UTF-8.

use vstd::prelude::*;
use crate::lexer::{Tok, tokens, tokenize, toks_wf, tok_ok, line_end_from, lemma_tokens_wf, lemma_tokens_len};
use crate::navigate::{
    Child, ValLoc, Located, children, children_from, child_ok, children_ok, locate, locate_block,
    loc_ok, path_view, split_occ, split_occurrence, occ_index, nth_from, lemma_nth_from,
    block_named, is_block_named, nth_block_named, children_ok_bounds, key_start, key_end,
    lemma_children_ok, last_hash_before, skip_block, lemma_skip_block, locate_from, top_level, lemma_locate_ok,
};
use crate::text::{parse_unsigned, parse_unsigned_bytes, is_space_tab, is_space_tab_byte, eq_ignore_case, bytes_eq_ignore_case, bytes_eq, lossy_utf8, lossy_string, chars_of, hex4, hex4_text, digit_bytes, lemma_digit_bytes, is_digit};

verus! {

// ---------------------------------------------------------------------------
// Encoding helpers.
// ---------------------------------------------------------------------------

/// Whether every char of the text is in the Latin-1 range (below U+0100).
pub open spec fn is_latin1(t: Seq<char>) -> bool {
    forall|i: int| 0 <= i < t.len() ==> (#[trigger] t[i] as u32) < 256
}

/// The Latin-1 bytes of a Latin-1 text.
pub open spec fn latin1_bytes(t: Seq<char>) -> Seq<u8> {
    t.map_values(|c: char| c as u32 as u8)
}

/// Index of the first char at or after `i` outside Latin-1.
pub open spec fn first_non_latin1_from(t: Seq<char>, i: int) -> int
    decreases t.len() - i,
{
    if i < 0 || i >= t.len() {
        t.len() as int
    } else if (t[i] as u32) >= 256 {
        i
    } else {
        first_non_latin1_from(t, i + 1)
    }
}

/// What `{:?}` writes for a char: the char in single quotes, escaped as
/// `char::escape_debug` escapes it.
pub uninterp spec fn char_debug_text(c: char) -> Seq<char>;

/// `format!("{c:?}")` of a char.
#[verifier::external_body]
fn char_debug(c: char) -> (s: String)
    ensures
        s@ == char_debug_text(c),
{
    format!("{c:?}")
}

/// The message reported for a char that Latin-1 cannot encode.
pub open spec fn latin1_error_text(c: char) -> Seq<char> {
    "Character "@ + char_debug_text(c) + " (U+"@ + hex4_text(c as u32 as nat) + ") is not encodable as Windows-1252/Latin-1"@
}

fn latin1_error(c: char) -> (s: String)
    ensures
        s@ == latin1_error_text(c),
{
    let mut m = String::from_str("Character ");
    let d = char_debug(c);
    m.append(d.as_str());
    m.append(" (U+");
    let h = hex4(c as u32);
    m.append(h.as_str());
    m.append(") is not encodable as Windows-1252/Latin-1");
    proof {
        reveal_strlit("Character ");
        reveal_strlit(" (U+");
        reveal_strlit(") is not encodable as Windows-1252/Latin-1");
    }
    m
}

/// Strict Latin-1 encoding: fails on the first char outside 0x00-0xFF.
pub open spec fn encode_latin1_spec(t: Seq<char>) -> Result<Seq<u8>, Seq<char>> {
    if is_latin1(t) {
        Ok(latin1_bytes(t))
    } else {
        Err(latin1_error_text(t[first_non_latin1_from(t, 0)]))
    }
}

proof fn lemma_first_non_latin1(t: Seq<char>, i: int)
    requires
        0 <= i <= t.len(),
        forall|j: int| 0 <= j < i ==> (#[trigger] t[j] as u32) < 256,
        !is_latin1(t),
    ensures
        first_non_latin1_from(t, i) < t.len(),
        first_non_latin1_from(t, i) == first_non_latin1_from(t, 0),
    decreases t.len() - i,
{
    if i > 0 {
        assert(forall|j: int| 0 <= j < i - 1 ==> (#[trigger] t[j] as u32) < 256);
        assert((t[i - 1] as u32) < 256);
        lemma_first_non_latin1_down(t, i - 1);
    }
    lemma_first_non_latin1_up(t, i);
}

proof fn lemma_first_non_latin1_down(t: Seq<char>, i: int)
    requires
        0 <= i < t.len(),
        forall|j: int| 0 <= j <= i ==> (#[trigger] t[j] as u32) < 256,
    ensures
        first_non_latin1_from(t, i + 1) == first_non_latin1_from(t, 0),
    decreases i,
{
    if i > 0 {
        lemma_first_non_latin1_down(t, i - 1);
    }
}

proof fn lemma_first_non_latin1_up(t: Seq<char>, i: int)
    requires
        0 <= i <= t.len(),
        !is_latin1(t),
        forall|j: int| 0 <= j < i ==> (#[trigger] t[j] as u32) < 256,
    ensures
        first_non_latin1_from(t, i) < t.len(),
    decreases t.len() - i,
{
    if i < t.len() && (t[i] as u32) < 256 {
        lemma_first_non_latin1_up(t, i + 1);
    }
}

/// Strict Latin-1 encoding for text the toolkit inserts: errors on any char
/// outside 0x00-0xFF instead of silently substituting.
pub fn encode_latin1(text: &str) -> (r: Result<Vec<u8>, String>)
    ensures
        match (r, encode_latin1_spec(text@)) {
            (Ok(v), Ok(w)) => v@ == w,
            (Err(m), Err(w)) => m@ == w,
            _ => false,
        },
{
    let cs = chars_of(text);
    let mut out: Vec<u8> = Vec::new();
    let mut i: usize = 0;
    while i < cs.len()
        invariant
            cs@ == text@,
            i <= cs@.len(),
            out@ == latin1_bytes(cs@.subrange(0, i as int)),
            forall|j: int| 0 <= j < i ==> (#[trigger] cs@[j] as u32) < 256,
        decreases cs@.len() - i,
    {
        let c = cs[i];
        let n = c as u32;
        if n >= 256 {
            proof {
                lemma_first_non_latin1(cs@, i as int);
                lemma_first_non_latin1_up(cs@, i as int);
            }
            return Err(latin1_error(c));
        }
        out.push(n as u8);
        assert(latin1_bytes(cs@.subrange(0, i + 1)) =~= latin1_bytes(cs@.subrange(0, i as int)).push(
            n as u8,
        ));
        i = i + 1;
    }
    assert(cs@.subrange(0, cs@.len() as int) =~= cs@);
    Ok(out)
}

/// Latin-1 range maps 1:1 to Windows-1252 here; anything outside becomes `?`.
pub open spec fn windows_1252_bytes(t: Seq<char>) -> Seq<u8> {
    t.map_values(|c: char| if (c as u32) < 256 { c as u32 as u8 } else { 63u8 })
}

pub fn encode_windows_1252(text: &str) -> (r: Vec<u8>)
    ensures
        r@ == windows_1252_bytes(text@),
{
    let cs = chars_of(text);
    let mut out: Vec<u8> = Vec::new();
    let mut i: usize = 0;
    while i < cs.len()
        invariant
            cs@ == text@,
            i <= cs@.len(),
            out@ == windows_1252_bytes(cs@.subrange(0, i as int)),
        decreases cs@.len() - i,
    {
        let n = cs[i] as u32;
        let b: u8 = if n < 256 { n as u8 } else { 63 };
        out.push(b);
        assert(windows_1252_bytes(cs@.subrange(0, i + 1)) =~= windows_1252_bytes(cs@.subrange(0, i as int)).push(b));
        i = i + 1;
    }
    assert(cs@.subrange(0, cs@.len() as int) =~= cs@);
    out
}

// ---------------------------------------------------------------------------
// Low-level byte helpers.
// ---------------------------------------------------------------------------

/// `src` with bytes `[start, end)` replaced by `insert`.
pub open spec fn splice(src: Seq<u8>, start: int, end: int, insert: Seq<u8>) -> Seq<u8> {
    src.subrange(0, start) + insert + src.subrange(end, src.len() as int)
}

/// `out` is `src` with one in-bounds byte range replaced by `ins`; every
/// other byte is kept, in place.
pub open spec fn replaces_span(src: Seq<u8>, out: Seq<u8>, ins: Seq<u8>) -> bool {
    exists|s: int, e: int| 0 <= s <= e <= src.len() && out == #[trigger] splice(src, s, e, ins)
}

/// `out` is `src` with bytes inserted at one place; every byte of `src` is
/// kept, in order.
pub open spec fn inserts_at_one_place(src: Seq<u8>, out: Seq<u8>) -> bool {
    exists|p: int, ins: Seq<u8>| 0 <= p <= src.len() && out == #[trigger] splice(src, p, p, ins)
}

pub fn splice_exec(src: &[u8], start: usize, end: usize, insert: &[u8]) -> (r: Vec<u8>)
    requires
        start <= end <= src@.len(),
    ensures
        r@ == splice(src@, start as int, end as int, insert@),
{
    let mut out: Vec<u8> = Vec::new();
    out.extend_from_slice(&src[0..start]);
    out.extend_from_slice(insert);
    out.extend_from_slice(&src[end..src.len()]);
    assert(out@ =~= splice(src@, start as int, end as int, insert@));
    out
}

/// Start-of-line byte offset for the line containing `pos`.
pub open spec fn line_start_of(src: Seq<u8>, pos: int) -> int
    decreases pos,
{
    if pos <= 0 || pos > src.len() {
        pos
    } else if src[pos - 1] == 10 {
        pos
    } else {
        line_start_of(src, pos - 1)
    }
}

pub proof fn lemma_line_start(src: Seq<u8>, pos: int)
    requires
        0 <= pos <= src.len(),
    ensures
        0 <= line_start_of(src, pos) <= pos,
        forall|j: int| line_start_of(src, pos) <= j < pos ==> src[j] != 10,
    decreases pos,
{
    if pos > 0 && src[pos - 1] != 10 {
        lemma_line_start(src, pos - 1);
    }
}

pub fn line_start(src: &[u8], pos: usize) -> (r: usize)
    requires
        pos <= src@.len(),
    ensures
        r == line_start_of(src@, pos as int),
        r <= pos,
{
    proof {
        lemma_line_start(src@, pos as int);
    }
    let mut i = pos;
    while i > 0 && src[i - 1] != 10
        invariant
            i <= pos <= src@.len(),
            line_start_of(src@, i as int) == line_start_of(src@, pos as int),
        decreases i,
    {
        i = i - 1;
    }
    i
}

/// First index at or after `i` (and before `end`) that is not a space or tab.
pub open spec fn space_tab_run(src: Seq<u8>, i: int, end: int) -> int
    decreases end - i,
{
    if i >= end || i >= src.len() || i < 0 || !is_space_tab(src[i]) {
        i
    } else {
        space_tab_run(src, i + 1, end)
    }
}

pub proof fn lemma_space_tab_run(src: Seq<u8>, i: int, end: int)
    requires
        0 <= i <= end <= src.len(),
    ensures
        i <= space_tab_run(src, i, end) <= end,
        forall|j: int| i <= j < space_tab_run(src, i, end) ==> is_space_tab(#[trigger] src[j]),
    decreases end - i,
{
    if i < end && is_space_tab(src[i]) {
        lemma_space_tab_run(src, i + 1, end);
    }
}

fn skip_space_tab(src: &[u8], i: usize, end: usize) -> (r: usize)
    requires
        i <= end <= src@.len(),
    ensures
        r == space_tab_run(src@, i as int, end as int),
        i <= r <= end,
{
    proof {
        lemma_space_tab_run(src@, i as int, end as int);
    }
    let mut j = i;
    while j < end && is_space_tab_byte(src[j])
        invariant
            i <= j <= end <= src@.len(),
            space_tab_run(src@, j as int, end as int) == space_tab_run(src@, i as int, end as int),
        decreases end - j,
    {
        j = j + 1;
    }
    j
}

/// Index just after the run of spaces and tabs that ends at `i`.
pub open spec fn space_tab_back(src: Seq<u8>, i: int) -> int
    decreases i,
{
    if i <= 0 || i > src.len() || !is_space_tab(src[i - 1]) {
        i
    } else {
        space_tab_back(src, i - 1)
    }
}

pub proof fn lemma_space_tab_back(src: Seq<u8>, i: int)
    requires
        0 <= i <= src.len(),
    ensures
        0 <= space_tab_back(src, i) <= i,
    decreases i,
{
    if i > 0 && is_space_tab(src[i - 1]) {
        lemma_space_tab_back(src, i - 1);
    }
}

/// A value with its surrounding double quotes removed, if it has both.
pub open spec fn unquote_spec(b: Seq<u8>) -> Seq<u8> {
    if b.len() >= 2 && b[0] == 34 && b[b.len() - 1] == 34 {
        b.subrange(1, b.len() - 1)
    } else {
        b
    }
}

pub fn unquote(b: &[u8]) -> (r: &[u8])
    ensures
        r@ == unquote_spec(b@),
{
    if b.len() >= 2 && b[0] == 34 && b[b.len() - 1] == 34 {
        &b[1..b.len() - 1]
    } else {
        b
    }
}

// ---------------------------------------------------------------------------
// Appending and indented insertion.
// ---------------------------------------------------------------------------

/// `src` followed by `enc`, with a separating newline before (when `src`
/// does not already end a line) and a trailing newline after.
pub open spec fn append_bytes(src: Seq<u8>, enc: Seq<u8>) -> Seq<u8> {
    let a = if src.len() > 0 && src.last() != 10 {
        src.push(10)
    } else {
        src
    };
    let b = a + enc;
    if enc.len() > 0 && enc.last() != 10 {
        b.push(10)
    } else {
        b
    }
}

pub open spec fn append_spec(src: Seq<u8>, text: Seq<char>) -> Result<Seq<u8>, Seq<char>> {
    match encode_latin1_spec(text) {
        Ok(enc) => Ok(append_bytes(src, enc)),
        Err(m) => Err(m),
    }
}

/// Appends `text` at the end of the file, guaranteeing a separating newline
/// before it and a trailing newline after.
pub fn append_text(src: &[u8], text: &str) -> (r: Result<Vec<u8>, String>)
    ensures
        same_result(r, append_spec(src@, text@)),
        r matches Ok(v) ==> inserts_at_one_place(src@, v@),
{
    let enc = match encode_latin1(text) {
        Ok(e) => e,
        Err(m) => return Err(m),
    };
    let mut out: Vec<u8> = Vec::new();
    out.extend_from_slice(src);
    assert(out@ =~= src@);
    if out.len() > 0 && out[out.len() - 1] != 10 {
        out.push(10);
    }
    assert(out@.subrange(0, src@.len() as int) =~= src@);
    let n = enc.len();
    out.extend_from_slice(enc.as_slice());
    assert(out@.subrange(0, src@.len() as int) =~= src@);
    if n > 0 && enc[n - 1] != 10 {
        out.push(10);
    }
    assert(out@ =~= append_bytes(src@, enc@));
    assert(out@.subrange(0, src@.len() as int) =~= src@);
    assert(out@ =~= splice(src@, src@.len() as int, src@.len() as int, out@.subrange(src@.len() as int, out@.len() as int)));
    Ok(out)
}

/// The result of a fallible edit agrees with its specification.
pub open spec fn same_result(r: Result<Vec<u8>, String>, s: Result<Seq<u8>, Seq<char>>) -> bool {
    match (r, s) {
        (Ok(v), Ok(w)) => v@ == w,
        (Err(m), Err(w)) => m@ == w,
        _ => false,
    }
}

/// A line without one trailing carriage return.
pub open spec fn strip_cr(line: Seq<u8>) -> Seq<u8> {
    if line.len() > 0 && line.last() == 13 {
        line.drop_last()
    } else {
        line
    }
}

/// A non-empty line prefixed with `indent`; an empty line stays empty.
pub open spec fn indent_line(line: Seq<u8>, indent: Seq<u8>) -> Seq<u8> {
    if strip_cr(line).len() == 0 {
        Seq::empty()
    } else {
        indent + strip_cr(line)
    }
}

/// The lines of `enc` from byte `i` on, each indented, joined with `nl`.
pub open spec fn indent_lines_from(enc: Seq<u8>, i: int, indent: Seq<u8>, nl: Seq<u8>) -> Seq<u8>
    decreases enc.len() - i,
{
    if i < 0 || i > enc.len() {
        Seq::empty()
    } else {
        let e = line_end_from(enc, i);
        let piece = indent_line(enc.subrange(i, e), indent);
        if e >= enc.len() {
            piece
        } else {
            proof {
                crate::lexer::lemma_line_end(enc, i);
            }
            piece + nl + indent_lines_from(enc, e + 1, indent, nl)
        }
    }
}

/// `text` (authored at column 0) re-indented so each non-empty line is
/// prefixed with `indent` and lines are joined with `nl`.
pub open spec fn build_indented_spec(text: Seq<char>, indent: Seq<u8>, nl: Seq<u8>) -> Result<Seq<u8>, Seq<char>> {
    match encode_latin1_spec(text) {
        Ok(enc) => Ok(indent_lines_from(enc, 0, indent, nl)),
        Err(m) => Err(m),
    }
}

fn push_indented_line(out: &mut Vec<u8>, line: &[u8], indent: &[u8])
    ensures
        final(out)@ == old(out)@ + indent_line(line@, indent@),
{
    let mut n = line.len();
    if n > 0 && line[n - 1] == 13 {
        n = n - 1;
    }
    assert(line@.subrange(0, n as int) =~= strip_cr(line@));
    if n > 0 {
        out.extend_from_slice(indent);
        out.extend_from_slice(&line[0..n]);
    }
    assert(out@ =~= old(out)@ + indent_line(line@, indent@));
}

pub fn build_indented(text: &str, indent: &[u8], nl: &[u8]) -> (r: Result<Vec<u8>, String>)
    ensures
        same_result(r, build_indented_spec(text@, indent@, nl@)),
{
    let enc = match encode_latin1(text) {
        Ok(e) => e,
        Err(m) => return Err(m),
    };
    let n = enc.len();
    let mut out: Vec<u8> = Vec::new();
    let mut i: usize = 0;
    loop
        invariant
            n == enc@.len(),
            i <= n,
            encode_latin1_spec(text@) == Ok::<Seq<u8>, Seq<char>>(enc@),
            out@ + indent_lines_from(enc@, i as int, indent@, nl@) == indent_lines_from(enc@, 0, indent@, nl@),
        decreases n - i,
    {
        let mut e = i;
        while e < n && enc[e] != 10
            invariant
                i <= e <= n,
                n == enc@.len(),
                line_end_from(enc@, e as int) == line_end_from(enc@, i as int),
            decreases n - e,
        {
            e = e + 1;
        }
        let ghost before = out@;
        assert(line_end_from(enc@, e as int) == e);
        let es = enc.as_slice();
        let line = &es[i..e];
        assert(line@ == enc@.subrange(i as int, e as int));
        push_indented_line(&mut out, line, indent);
        if e >= n {
            assert(out@ =~= before + indent_lines_from(enc@, i as int, indent@, nl@));
            assert(out@ + Seq::<u8>::empty() =~= out@);
            assert(out@ == indent_lines_from(enc@, 0, indent@, nl@));
            return Ok(out);
        }
        out.extend_from_slice(nl);
        assert(out@ + indent_lines_from(enc@, e + 1, indent@, nl@) =~= before + indent_lines_from(enc@, i as int, indent@, nl@));
        i = e + 1;
    }
}

/// The leading whitespace on the line of child `c`, up to its first byte.
pub open spec fn indent_of(src: Seq<u8>, c: Child) -> Seq<u8> {
    src.subrange(line_start_of(src, c.stmt_start as int), c.stmt_start as int)
}

pub open spec fn is_indent(ind: Seq<u8>) -> bool {
    ind.len() > 0 && forall|j: int| 0 <= j < ind.len() ==> is_space_tab(#[trigger] ind[j])
}

/// The indent of the first line-leading child from `j` on.
pub open spec fn kids_indent_from(src: Seq<u8>, kids: Seq<Child>, j: int) -> Option<Seq<u8>>
    decreases kids.len() - j,
{
    if j < 0 || j >= kids.len() {
        None
    } else if is_indent(indent_of(src, kids[j])) {
        Some(indent_of(src, kids[j]))
    } else {
        kids_indent_from(src, kids, j + 1)
    }
}

/// The child indentation of a block: the leading whitespace of its first
/// line-leading child, else the closing brace's indent plus one tab.
pub open spec fn child_indent_spec(src: Seq<u8>, toks: Seq<Tok>, loc: Located, cb: int) -> Seq<u8> {
    match kids_indent_from(src, children_from(toks, loc.cs as int, loc.ce as int), 0) {
        Some(ind) => ind,
        None => {
            let cls = line_start_of(src, cb);
            src.subrange(cls, space_tab_run(src, cls, cb)).push(9)
        },
    }
}

fn child_indent(src: &[u8], toks: &Vec<Tok>, loc: &Located, cb: usize) -> (r: Vec<u8>)
    requires
        toks_wf(src@, toks@),
        loc_ok(src@, toks@, *loc),
        cb < src@.len(),
    ensures
        r@ == child_indent_spec(src@, toks@, *loc, cb as int),
{
    let kids = children(src, toks, loc.cs, loc.ce);
    let mut j: usize = 0;
    while j < kids.len()
        invariant
            j <= kids@.len(),
            kids@ == children_from(toks@, loc.cs as int, loc.ce as int),
            children_ok(src@, toks@, kids@),
            kids_indent_from(src@, kids@, j as int) == kids_indent_from(src@, kids@, 0),
        decreases kids@.len() - j,
    {
        let st = kids[j].stmt_start;
        assert(child_ok(src@, toks@, kids@[j as int]));
        let ls = line_start(src, st);
        let mut ok = ls < st;
        let mut q = ls;
        while q < st
            invariant
                ls <= q <= st,
                st <= src@.len(),
                ok ==> ls < st,
                ok ==> forall|k: int| ls <= k < q ==> is_space_tab(#[trigger] src@[k]),
                !ok ==> !is_indent(src@.subrange(ls as int, st as int)),
            decreases st - q,
        {
            if !is_space_tab_byte(src[q]) {
                ok = false;
                assert(src@.subrange(ls as int, st as int)[q - ls] == src@[q as int]);
            }
            q = q + 1;
        }
        assert(indent_of(src@, kids@[j as int]) == src@.subrange(ls as int, st as int));
        if ok {
            assert forall|k: int| 0 <= k < src@.subrange(ls as int, st as int).len() implies is_space_tab(
                #[trigger] src@.subrange(ls as int, st as int)[k],
            ) by {
                assert(src@.subrange(ls as int, st as int)[k] == src@[ls + k]);
            }
            assert(is_indent(src@.subrange(ls as int, st as int)));
            let v = vstd::slice::slice_to_vec(&src[ls..st]);
            assert(v@ == src@.subrange(ls as int, st as int));
            return v;
        }
        j = j + 1;
    }
    let cls = line_start(src, cb);
    let e = skip_space_tab(src, cls, cb);
    let mut ind = vstd::slice::slice_to_vec(&src[cls..e]);
    ind.push(9);
    ind
}

/// Whether byte `b` occurs in `s`.
pub open spec fn has_byte(s: Seq<u8>, b: u8) -> bool {
    exists|i: int| 0 <= i < s.len() && s[i] == b
}

/// Whether `s` contains a CRLF pair.
pub open spec fn has_crlf(s: Seq<u8>) -> bool {
    exists|i: int| 0 <= i < s.len() - 1 && #[trigger] s[i] == 13 && s[i + 1] == 10
}

fn contains_byte(s: &[u8], b: u8) -> (r: bool)
    ensures
        r == has_byte(s@, b),
{
    let mut i: usize = 0;
    while i < s.len()
        invariant
            i <= s@.len(),
            forall|j: int| 0 <= j < i ==> s@[j] != b,
        decreases s@.len() - i,
    {
        if s[i] == b {
            return true;
        }
        i = i + 1;
    }
    false
}

fn contains_crlf(s: &[u8]) -> (r: bool)
    ensures
        r == has_crlf(s@),
{
    let mut i: usize = 0;
    while s.len() > 0 && i < s.len() - 1
        invariant
            i <= s@.len(),
            forall|j: int| 0 <= j < i && j < s@.len() - 1 ==> !(#[trigger] s@[j] == 13 && s@[j + 1] == 10),
        decreases s@.len() - i,
    {
        if s[i] == 13 && s[i + 1] == 10 {
            return true;
        }
        i = i + 1;
    }
    false
}

/// The error every edit reports when its target block path does not resolve.
pub open spec fn err_block_not_found() -> Seq<char> {
    "target block not found"@
}

fn block_not_found() -> (s: String)
    ensures
        s@ == err_block_not_found(),
{
    String::from_str("target block not found")
}

/// Inserts `text` as a new statement inside the block at `path` (empty =
/// top level). Multi-line blocks get a fresh indented line before the closing
/// brace; inline blocks get the statement spliced before the brace.
pub open spec fn insert_spec(src: Seq<u8>, path: Seq<Seq<u8>>, text: Seq<char>) -> Result<Seq<u8>, Seq<char>> {
    let toks = tokens(src);
    match locate(src, toks, path) {
        None => Err(err_block_not_found()),
        Some(loc) => match loc.braces {
            None => append_spec(src, text),
            Some((ob, cb)) => {
                if has_byte(src.subrange(ob as int, cb + 1), 10) {
                    let nl = if has_crlf(src.subrange(ob as int, cb as int)) {
                        seq![13u8, 10u8]
                    } else {
                        seq![10u8]
                    };
                    let indent = child_indent_spec(src, toks, loc, cb as int);
                    match build_indented_spec(text, indent, nl) {
                        Err(m) => Err(m),
                        Ok(body) => {
                            let pos = line_start_of(src, cb as int);
                            Ok(splice(src, pos, pos, body + nl))
                        },
                    }
                } else {
                    match encode_latin1_spec(text) {
                        Err(m) => Err(m),
                        Ok(enc) => {
                            let sp = if cb > 0 && !is_space_tab(src[cb - 1]) {
                                seq![32u8]
                            } else {
                                Seq::empty()
                            };
                            Ok(splice(src, cb as int, cb as int, sp + enc + seq![32u8]))
                        },
                    }
                }
            },
        },
    }
}

fn insert_into_block(src: &[u8], toks: &Vec<Tok>, path: &Vec<&[u8]>, text: &str) -> (r: Result<Vec<u8>, String>)
    requires
        toks@ == tokens(src@),
        toks_wf(src@, toks@),
    ensures
        same_result(r, insert_spec(src@, path_view(path@), text@)),
        r matches Ok(v) ==> inserts_at_one_place(src@, v@),
{
    let loc = match locate_block(src, toks, path) {
        Some(l) => l,
        None => return Err(block_not_found()),
    };
    match loc.braces {
        None => append_text(src, text),
        Some((ob, cb)) => {
            assert(cb < src@.len());
            assert(src@.len() == src.len());
            if contains_byte(&src[ob..cb + 1], 10) {
                let nl: Vec<u8> = if contains_crlf(&src[ob..cb]) {
                    vec![13u8, 10u8]
                } else {
                    vec![10u8]
                };
                assert(nl@ == (if has_crlf(src@.subrange(ob as int, cb as int)) { seq![13u8, 10u8] } else { seq![10u8] }));
                let indent = child_indent(src, toks, &loc, cb);
                let mut body = match build_indented(text, indent.as_slice(), nl.as_slice()) {
                    Ok(b) => b,
                    Err(m) => return Err(m),
                };
                let ghost b0 = body@;
                body.extend_from_slice(nl.as_slice());
                assert(body@ == b0 + nl@);
                let pos = line_start(src, cb);
                let out = splice_exec(src, pos, pos, body.as_slice());
                assert(locate(src@, toks@, path_view(path@)) == Some(loc));
                assert(has_byte(src@.subrange(ob as int, cb + 1), 10));
                assert(build_indented_spec(text@, indent@, nl@) == Ok::<Seq<u8>, Seq<char>>(b0));
                assert(out@ == splice(src@, line_start_of(src@, cb as int), line_start_of(src@, cb as int), b0 + nl@));
                assert(out@ == splice(src@, pos as int, pos as int, body@));
                Ok(out)
            } else {
                let enc = match encode_latin1(text) {
                    Ok(e) => e,
                    Err(m) => return Err(m),
                };
                let mut ins: Vec<u8> = Vec::new();
                if cb > 0 && !is_space_tab_byte(src[cb - 1]) {
                    ins.push(32);
                }
                ins.extend_from_slice(enc.as_slice());
                ins.push(32);
                proof {
                    let sp = if cb > 0 && !is_space_tab(src@[cb - 1]) { seq![32u8] } else { Seq::<u8>::empty() };
                    assert(ins@ =~= sp + enc@ + seq![32u8]);
                }
                let out = splice_exec(src, cb, cb, ins.as_slice());
                assert(out@ == splice(src@, cb as int, cb as int, ins@));
                Ok(out)
            }
        },
    }
}

/// `prefix` followed by the lossily decoded bytes `key`.
fn message_with(prefix: &str, key: &[u8]) -> (s: String)
    ensures
        s@ == prefix@ + lossy_utf8(key@),
{
    let mut m = String::from_str(prefix);
    let k = lossy_string(key);
    m.append(k.as_str());
    m
}

// ---------------------------------------------------------------------------
// Statement removal.
// ---------------------------------------------------------------------------

/// Whether the bytes `[ls, s)` hold only spaces, tabs and carriage returns.
pub open spec fn owns_line(src: Seq<u8>, ls: int, s: int) -> bool {
    forall|j: int| ls <= j < s ==> is_space_tab(#[trigger] src[j]) || src[j] == 13
}

/// Deletes a statement's whole physical line (indent + statement + line
/// ending) when it owns its line, else just the statement plus one trailing
/// whitespace run so inline neighbors close up cleanly.
pub open spec fn delete_span_spec(src: Seq<u8>, s: int, e: int) -> Seq<u8> {
    let ls = line_start_of(src, s);
    if owns_line(src, ls, s) {
        let le = line_end_from(src, e);
        let de = if le < src.len() {
            le + 1
        } else {
            le
        };
        splice(src, ls, de, Seq::empty())
    } else {
        splice(src, s, space_tab_run(src, e, src.len() as int), Seq::empty())
    }
}

fn delete_statement_span(src: &[u8], s: usize, e: usize) -> (r: Vec<u8>)
    requires
        s <= e <= src@.len(),
    ensures
        r@ == delete_span_spec(src@, s as int, e as int),
        replaces_span(src@, r@, Seq::empty()),
{
    let n = src.len();
    let ls = line_start(src, s);
    let mut owns = true;
    let mut q = ls;
    while q < s
        invariant
            ls <= q <= s <= n,
            n == src@.len(),
            owns == owns_line(src@, ls as int, q as int),
        decreases s - q,
    {
        let b = src[q];
        owns = owns && (is_space_tab_byte(b) || b == 13);
        q = q + 1;
    }
    if owns {
        let mut de = e;
        while de < n && src[de] != 10
            invariant
                e <= de <= n,
                n == src@.len(),
                line_end_from(src@, de as int) == line_end_from(src@, e as int),
            decreases n - de,
        {
            de = de + 1;
        }
        if de < n {
            de = de + 1;
        }
        let out = splice_exec(src, ls, de, &[]);
        assert(out@ == splice(src@, ls as int, de as int, Seq::<u8>::empty()));
        out
    } else {
        let de = skip_space_tab(src, e, n);
        let out = splice_exec(src, s, de, &[]);
        assert(out@ == splice(src@, s as int, de as int, Seq::<u8>::empty()));
        out
    }
}

/// Whether child `c` is the statement `remove_statement` looks for: keyed
/// `base` (ignoring ASCII case) and, with a `value`, a scalar whose unquoted
/// text equals it.
pub open spec fn is_statement(src: Seq<u8>, c: Child, base: Seq<u8>, value: Option<Seq<u8>>) -> bool {
    &&& c.key is Some
    &&& eq_ignore_case(src.subrange(key_start(c), key_end(c)), base)
    &&& match (value, c.val) {
        (None, _) => true,
        (Some(v), ValLoc::Scalar(vs, ve)) => unquote_spec(src.subrange(vs as int, ve as int)) == v,
        (Some(_), ValLoc::Block(_, _)) => false,
    }
}

pub open spec fn statement_named(src: Seq<u8>, base: Seq<u8>, value: Option<Seq<u8>>) -> spec_fn(Child) -> bool {
    |c: Child| is_statement(src, c, base, value)
}

/// Removes the first child of `path` named `key` (optionally also matching
/// scalar `value`); a `key#n` suffix selects the nth such child.
pub open spec fn remove_statement_spec(src: Seq<u8>, path: Seq<Seq<u8>>, key: Seq<u8>, value: Option<Seq<u8>>) -> Result<Seq<u8>, Seq<char>> {
    let toks = tokens(src);
    match locate(src, toks, path) {
        None => Err(err_block_not_found()),
        Some(loc) => {
            let kids = children_from(toks, loc.cs as int, loc.ce as int);
            let (base, occ) = split_occ(key);
            match nth_from(kids, statement_named(src, base, value), 0, occ_index(occ)) {
                None => Err("statement not found: "@ + lossy_utf8(key)),
                Some(j) => Ok(delete_span_spec(src, kids[j].stmt_start as int, kids[j].stmt_end as int)),
            }
        },
    }
}

fn remove_statement(src: &[u8], toks: &Vec<Tok>, path: &Vec<&[u8]>, key: &[u8], value: Option<&[u8]>) -> (r: Result<Vec<u8>, String>)
    requires
        toks@ == tokens(src@),
        toks_wf(src@, toks@),
    ensures
        same_result(
            r,
            remove_statement_spec(
                src@,
                path_view(path@),
                key@,
                match value {
                    Some(v) => Some(v@),
                    None => None,
                },
            ),
        ),
        r matches Ok(v) ==> replaces_span(src@, v@, Seq::empty()),
{
    let ghost vv = match value {
        Some(v) => Some(v@),
        None => None::<Seq<u8>>,
    };
    let loc = match locate_block(src, toks, path) {
        Some(l) => l,
        None => return Err(block_not_found()),
    };
    let kids = children(src, toks, loc.cs, loc.ce);
    let (base, occ) = split_occurrence(key);
    let n = match occ {
        Some(n) => n,
        None => 0,
    };
    let ghost p = statement_named(src@, base@, vv);
    let mut j: usize = 0;
    let mut left = n;
    while j < kids.len()
        invariant
            j <= kids@.len(),
            children_ok(src@, toks@, kids@),
            children_ok_bounds(src@, kids@),
            toks@ == tokens(src@),
            locate(src@, toks@, path_view(path@)) == Some(loc),
            kids@ == children_from(toks@, loc.cs as int, loc.ce as int),
            base@ == split_occ(key@).0,
            n as nat == occ_index(split_occ(key@).1),
            vv == match value {
                Some(v) => Some(v@),
                None => None::<Seq<u8>>,
            },
            p == statement_named(src@, base@, vv),
            nth_from(kids@, p, j as int, left as nat) == nth_from(kids@, p, 0, n as nat),
        decreases kids@.len() - j,
    {
        let c = kids[j];
        assert(child_ok(src@, toks@, c));
        let m = match c.key {
            Some((ks, ke)) => bytes_eq_ignore_case(&src[ks..ke], base) && match (value, c.val) {
                (None, _) => true,
                (Some(v), ValLoc::Scalar(vs, ve)) => bytes_eq(unquote(&src[vs..ve]), v),
                (Some(_), ValLoc::Block(_, _)) => false,
            },
            None => false,
        };
        assert(m == p(c));
        if m {
            if left == 0 {
                assert(nth_from(kids@, p, 0, n as nat) == Some(j as int));
                return Ok(delete_statement_span(src, c.stmt_start, c.stmt_end));
            }
            left = left - 1;
        }
        j = j + 1;
    }
    Err(message_with("statement not found: ", key))
}

// ---------------------------------------------------------------------------
// Id-list splice.
// ---------------------------------------------------------------------------

/// Whether child `c` is the bare list element `id`.
pub open spec fn is_bare_id(src: Seq<u8>, c: Child, id: Seq<u8>) -> bool {
    &&& c.key is None
    &&& c.val is Scalar
    &&& src.subrange(c.val->Scalar_0 as int, c.val->Scalar_1 as int) == id
}

pub open spec fn bare_id(src: Seq<u8>, id: Seq<u8>) -> spec_fn(Child) -> bool {
    |c: Child| is_bare_id(src, c, id)
}

/// The byte range `remove_id` deletes around the id token `[s, e)`: a sole id
/// on its own line takes its indent and line ending with it; the last id on a
/// shared line takes the whitespace before it; otherwise the id and the
/// whitespace after it go.
pub open spec fn id_delete_range(src: Seq<u8>, s: int, e: int) -> (int, int) {
    let p = space_tab_back(src, s);
    let before = p == 0 || src[p - 1] == 10 || src[p - 1] == 13;
    let q = space_tab_run(src, e, src.len() as int);
    let after = q >= src.len() || src[q] == 10 || src[q] == 13;
    if before && after {
        let d1 = if q < src.len() && src[q] == 13 {
            q + 1
        } else {
            q
        };
        let d2 = if d1 < src.len() && src[d1] == 10 {
            d1 + 1
        } else {
            d1
        };
        (p, d2)
    } else if after {
        (p, e)
    } else {
        (s, q)
    }
}

/// Removes a bare id from the named id-list at `path`, tightening the
/// surrounding whitespace. Ids inside comments are never touched.
pub open spec fn remove_id_spec(src: Seq<u8>, path: Seq<Seq<u8>>, id: Seq<u8>) -> Result<Seq<u8>, Seq<char>> {
    let toks = tokens(src);
    match locate(src, toks, path) {
        None => Err("target list not found"@),
        Some(loc) => {
            let kids = children_from(toks, loc.cs as int, loc.ce as int);
            match nth_from(kids, bare_id(src, id), 0, 0) {
                None => Err("id not found in list: "@ + lossy_utf8(id)),
                Some(j) => {
                    let (ds, de) = id_delete_range(
                        src,
                        kids[j].val->Scalar_0 as int,
                        kids[j].val->Scalar_1 as int,
                    );
                    Ok(splice(src, ds, de, Seq::empty()))
                },
            }
        },
    }
}

fn space_tab_back_exec(src: &[u8], i: usize) -> (r: usize)
    requires
        i <= src@.len(),
    ensures
        r == space_tab_back(src@, i as int),
        r <= i,
{
    proof {
        lemma_space_tab_back(src@, i as int);
    }
    let mut p = i;
    while p > 0 && is_space_tab_byte(src[p - 1])
        invariant
            p <= i <= src@.len(),
            space_tab_back(src@, p as int) == space_tab_back(src@, i as int),
        decreases p,
    {
        p = p - 1;
    }
    p
}

fn remove_id(src: &[u8], toks: &Vec<Tok>, path: &Vec<&[u8]>, id: &[u8]) -> (r: Result<Vec<u8>, String>)
    requires
        toks@ == tokens(src@),
        toks_wf(src@, toks@),
    ensures
        same_result(r, remove_id_spec(src@, path_view(path@), id@)),
        r matches Ok(v) ==> replaces_span(src@, v@, Seq::empty()),
{
    let loc = match locate_block(src, toks, path) {
        Some(l) => l,
        None => return Err(String::from_str("target list not found")),
    };
    let kids = children(src, toks, loc.cs, loc.ce);
    let ghost p = bare_id(src@, id@);
    let mut j: usize = 0;
    while j < kids.len()
        invariant
            j <= kids@.len(),
            children_ok(src@, toks@, kids@),
            toks@ == tokens(src@),
            locate(src@, toks@, path_view(path@)) == Some(loc),
            kids@ == children_from(toks@, loc.cs as int, loc.ce as int),
            p == bare_id(src@, id@),
            nth_from(kids@, p, j as int, 0) == nth_from(kids@, p, 0, 0),
        decreases kids@.len() - j,
    {
        let c = kids[j];
        assert(child_ok(src@, toks@, c));
        let m = match (c.key, c.val) {
            (None, ValLoc::Scalar(vs, ve)) => bytes_eq(&src[vs..ve], id),
            _ => false,
        };
        assert(m == p(c));
        if m {
            let (s, e) = match c.val {
                ValLoc::Scalar(vs, ve) => (vs, ve),
                ValLoc::Block(_, _) => (0, 0),
            };
            let n = src.len();
            let pstart = space_tab_back_exec(src, s);
            let before = pstart == 0 || src[pstart - 1] == 10 || src[pstart - 1] == 13;
            let q = skip_space_tab(src, e, n);
            let after = q >= n || src[q] == 10 || src[q] == 13;
            let (ds, de) = if before && after {
                let mut d = q;
                if d < n && src[d] == 13 {
                    d = d + 1;
                }
                if d < n && src[d] == 10 {
                    d = d + 1;
                }
                (pstart, d)
            } else if after {
                (pstart, e)
            } else {
                (s, q)
            };
            assert((ds as int, de as int) == id_delete_range(src@, s as int, e as int));
            assert(nth_from(kids@, p, 0, 0) == Some(j as int));
            let out = splice_exec(src, ds, de, &[]);
            assert(out@ == splice(src@, ds as int, de as int, Seq::<u8>::empty()));
            return Ok(out);
        }
        j = j + 1;
    }
    Err(message_with("id not found in list: ", id))
}

// ---------------------------------------------------------------------------
// Scalar and block-value replacement.
// ---------------------------------------------------------------------------

/// The path without its last element (the block path of a keyed target).
fn init_path<'a>(path: &Vec<&'a [u8]>) -> (r: Vec<&'a [u8]>)
    requires
        path@.len() > 0,
    ensures
        path_view(r@) == path_view(path@).drop_last(),
{
    let mut out: Vec<&[u8]> = Vec::new();
    let mut i: usize = 0;
    while i < path.len() - 1
        invariant
            path@.len() > 0,
            i <= path@.len() - 1,
            out@ == path@.subrange(0, i as int),
        decreases path@.len() - i,
    {
        out.push(path[i]);
        assert(out@ =~= path@.subrange(0, i + 1));
        i = i + 1;
    }
    assert forall|k: int| 0 <= k < path@.len() - 1 implies #[trigger] path_view(out@)[k] == path_view(path@).drop_last()[k] by {
        assert(out@[k] == path@[k]);
    }
    assert(path_view(out@) =~= path_view(path@).drop_last());
    out
}

/// Whether child `c` is a scalar statement keyed `key` (ignoring ASCII case).
pub open spec fn is_scalar_named(src: Seq<u8>, c: Child, key: Seq<u8>) -> bool {
    &&& c.key is Some
    &&& eq_ignore_case(src.subrange(key_start(c), key_end(c)), key)
    &&& c.val is Scalar
}

pub open spec fn scalar_named(src: Seq<u8>, key: Seq<u8>) -> spec_fn(Child) -> bool {
    |c: Child| is_scalar_named(src, c, key)
}

/// The encoded value, wrapped in double quotes when `quoted`.
pub open spec fn quoted_bytes(enc: Seq<u8>, quoted: bool) -> Seq<u8> {
    if quoted {
        seq![34u8] + enc + seq![34u8]
    } else {
        enc
    }
}

/// Replaces the scalar value at `path` (block keys, then the scalar key);
/// `quoted` wraps the new value in double quotes.
pub open spec fn set_scalar_spec(src: Seq<u8>, path: Seq<Seq<u8>>, value: Seq<char>, quoted: bool) -> Result<Seq<u8>, Seq<char>> {
    if path.len() == 0 {
        Err("set_scalar requires a non-empty path"@)
    } else {
        let key = path.last();
        let toks = tokens(src);
        match locate(src, toks, path.drop_last()) {
            None => Err(err_block_not_found()),
            Some(loc) => {
                let kids = children_from(toks, loc.cs as int, loc.ce as int);
                match nth_from(kids, scalar_named(src, key), 0, 0) {
                    None => Err("scalar key not found: "@ + lossy_utf8(key)),
                    Some(j) => match encode_latin1_spec(value) {
                        Err(m) => Err(m),
                        Ok(enc) => Ok(
                            splice(
                                src,
                                kids[j].val->Scalar_0 as int,
                                kids[j].val->Scalar_1 as int,
                                quoted_bytes(enc, quoted),
                            ),
                        ),
                    },
                }
            },
        }
    }
}

fn set_scalar(src: &[u8], toks: &Vec<Tok>, path: &Vec<&[u8]>, value: &str, quoted: bool) -> (r: Result<Vec<u8>, String>)
    requires
        toks@ == tokens(src@),
        toks_wf(src@, toks@),
    ensures
        same_result(r, set_scalar_spec(src@, path_view(path@), value@, quoted)),
        r matches Ok(v) ==> replaces_span(src@, v@, quoted_bytes(latin1_bytes(value@), quoted)),
{
    if path.len() == 0 {
        return Err(String::from_str("set_scalar requires a non-empty path"));
    }
    let key = path[path.len() - 1];
    assert(key@ == path_view(path@).last());
    let block_path = init_path(path);
    let loc = match locate_block(src, toks, &block_path) {
        Some(l) => l,
        None => return Err(block_not_found()),
    };
    let kids = children(src, toks, loc.cs, loc.ce);
    let ghost p = scalar_named(src@, key@);
    let mut j: usize = 0;
    while j < kids.len()
        invariant
            j <= kids@.len(),
            children_ok(src@, toks@, kids@),
            toks@ == tokens(src@),
            path_view(path@).len() > 0,
            key@ == path_view(path@).last(),
            locate(src@, toks@, path_view(path@).drop_last()) == Some(loc),
            kids@ == children_from(toks@, loc.cs as int, loc.ce as int),
            p == scalar_named(src@, key@),
            nth_from(kids@, p, j as int, 0) == nth_from(kids@, p, 0, 0),
        decreases kids@.len() - j,
    {
        let c = kids[j];
        assert(child_ok(src@, toks@, c));
        let m = match (c.key, c.val) {
            (Some((ks, ke)), ValLoc::Scalar(_, _)) => bytes_eq_ignore_case(&src[ks..ke], key),
            _ => false,
        };
        assert(m == p(c));
        if m {
            let (s, e) = match c.val {
                ValLoc::Scalar(vs, ve) => (vs, ve),
                ValLoc::Block(_, _) => (0, 0),
            };
            assert(nth_from(kids@, p, 0, 0) == Some(j as int));
            let enc = match encode_latin1(value) {
                Ok(v) => v,
                Err(m) => return Err(m),
            };
            let mut rep: Vec<u8> = Vec::new();
            if quoted {
                rep.push(34);
            }
            rep.extend_from_slice(enc.as_slice());
            if quoted {
                rep.push(34);
            }
            assert(rep@ =~= quoted_bytes(enc@, quoted));
            assert(enc@ == latin1_bytes(value@));
            let out = splice_exec(src, s, e, rep.as_slice());
            assert(out@ == splice(src@, s as int, e as int, quoted_bytes(latin1_bytes(value@), quoted)));
            return Ok(out);
        }
        j = j + 1;
    }
    Err(message_with("scalar key not found: ", key))
}

/// Replaces the `{ ... }` value of the block keyed by the last element of
/// `path` (optionally `key#n`), emitted canonically as `{ <value> }`.
pub open spec fn set_block_spec(src: Seq<u8>, path: Seq<Seq<u8>>, value: Seq<char>) -> Result<Seq<u8>, Seq<char>> {
    if path.len() == 0 {
        Err("set_block_value requires a non-empty path"@)
    } else {
        let key = path.last();
        let toks = tokens(src);
        match locate(src, toks, path.drop_last()) {
            None => Err(err_block_not_found()),
            Some(loc) => {
                let kids = children_from(toks, loc.cs as int, loc.ce as int);
                let (base, occ) = split_occ(key);
                match nth_from(kids, block_named(src, base), 0, occ_index(occ)) {
                    None => Err("block key not found: "@ + lossy_utf8(key)),
                    Some(j) => {
                        let ot = kids[j].val->Block_0 as int;
                        let ct = kids[j].val->Block_1 as int;
                        if !(toks[ot] is Open) {
                            Err("expected open brace"@)
                        } else if !(toks[ct] is Close) {
                            Err("expected close brace"@)
                        } else {
                            match encode_latin1_spec(value) {
                                Err(m) => Err(m),
                                Ok(enc) => Ok(
                                    splice(
                                        src,
                                        toks[ot]->Open_0 as int,
                                        toks[ct]->Close_0 + 1,
                                        seq![123u8, 32u8] + enc + seq![32u8, 125u8],
                                    ),
                                ),
                            }
                        }
                    },
                }
            },
        }
    }
}

fn set_block_value(src: &[u8], toks: &Vec<Tok>, path: &Vec<&[u8]>, value: &str) -> (r: Result<Vec<u8>, String>)
    requires
        toks@ == tokens(src@),
        toks_wf(src@, toks@),
    ensures
        same_result(r, set_block_spec(src@, path_view(path@), value@)),
        r matches Ok(v) ==> replaces_span(src@, v@, seq![123u8, 32u8] + latin1_bytes(value@) + seq![32u8, 125u8]),
{
    if path.len() == 0 {
        return Err(String::from_str("set_block_value requires a non-empty path"));
    }
    let key = path[path.len() - 1];
    assert(key@ == path_view(path@).last());
    let block_path = init_path(path);
    let loc = match locate_block(src, toks, &block_path) {
        Some(l) => l,
        None => return Err(block_not_found()),
    };
    let kids = children(src, toks, loc.cs, loc.ce);
    let (base, occ) = split_occurrence(key);
    let n = match occ {
        Some(n) => n,
        None => 0,
    };
    let found = nth_block_named(src, &kids, base, n);
    proof {
        lemma_nth_from(kids@, block_named(src@, base@), 0, n as nat);
        assert(kids@.len() == kids.len());
    }
    let j = match found {
        Some(j) => j,
        None => return Err(message_with("block key not found: ", key)),
    };
    assert(nth_from(kids@, block_named(src@, base@), 0, n as nat) == Some(j as int));
    assert(block_named(src@, base@)(kids@[j as int]));
    assert(child_ok(src@, toks@, kids@[j as int]));
    let (ot, ct) = match kids[j].val {
        ValLoc::Block(o, c) => (o, c),
        ValLoc::Scalar(_, _) => (0, 0),
    };
    let ob = match toks[ot] {
        Tok::Open(b) => b,
        _ => return Err(String::from_str("expected open brace")),
    };
    let cb = match toks[ct] {
        Tok::Close(b) => b,
        _ => return Err(String::from_str("expected close brace")),
    };
    assert(tok_ok(src@, toks@[ct as int]));
    assert(src@.len() == src.len());
    let enc = match encode_latin1(value) {
        Ok(v) => v,
        Err(m) => return Err(m),
    };
    let mut rep: Vec<u8> = Vec::new();
    rep.push(123);
    rep.push(32);
    rep.extend_from_slice(enc.as_slice());
    rep.push(32);
    rep.push(125);
    assert(rep@ =~= seq![123u8, 32u8] + enc@ + seq![32u8, 125u8]);
    assert(enc@ == latin1_bytes(value@));
    let out = splice_exec(src, ob, cb + 1, rep.as_slice());
    assert(out@ == splice(src@, ob as int, cb + 1, seq![123u8, 32u8] + latin1_bytes(value@) + seq![32u8, 125u8]));
    Ok(out)
}

// ---------------------------------------------------------------------------
// Dates.
// ---------------------------------------------------------------------------

/// First index at or after `i` holding a `.`, else the length.
pub open spec fn dot_from(t: Seq<u8>, i: int) -> int
    decreases t.len() - i,
{
    if i >= t.len() || i < 0 || t[i] == 46 {
        i
    } else {
        dot_from(t, i + 1)
    }
}

proof fn lemma_dot_from(t: Seq<u8>, i: int)
    requires
        0 <= i <= t.len(),
    ensures
        i <= dot_from(t, i) <= t.len(),
    decreases t.len() - i,
{
    if i < t.len() && t[i] != 46 {
        lemma_dot_from(t, i + 1);
    }
}

/// A `Y.M.D` date key: exactly three `.`-separated `u32` fields.
pub open spec fn parse_date_spec(t: Seq<u8>) -> Option<(u32, u32, u32)> {
    let d1 = dot_from(t, 0);
    if d1 >= t.len() {
        None
    } else {
        let d2 = dot_from(t, d1 + 1);
        if d2 >= t.len() || dot_from(t, d2 + 1) < t.len() {
            None
        } else {
            match (
                parse_unsigned(t.subrange(0, d1), u32::MAX as nat),
                parse_unsigned(t.subrange(d1 + 1, d2), u32::MAX as nat),
                parse_unsigned(t.subrange(d2 + 1, t.len() as int), u32::MAX as nat),
            ) {
                (Some(y), Some(m), Some(d)) => Some((y as u32, m as u32, d as u32)),
                _ => None,
            }
        }
    }
}

fn find_dot(t: &[u8], i: usize) -> (r: usize)
    requires
        i <= t@.len(),
    ensures
        r == dot_from(t@, i as int),
        i <= r <= t@.len(),
{
    proof {
        lemma_dot_from(t@, i as int);
    }
    let mut j = i;
    while j < t.len() && t[j] != 46
        invariant
            i <= j <= t@.len(),
            dot_from(t@, j as int) == dot_from(t@, i as int),
        decreases t@.len() - j,
    {
        j = j + 1;
    }
    j
}

pub fn parse_date(text: &[u8]) -> (r: Option<(u32, u32, u32)>)
    ensures
        r == parse_date_spec(text@),
{
    let n = text.len();
    let d1 = find_dot(text, 0);
    if d1 >= n {
        return None;
    }
    let d2 = find_dot(text, d1 + 1);
    if d2 >= n {
        return None;
    }
    let d3 = find_dot(text, d2 + 1);
    if d3 < n {
        return None;
    }
    let y = parse_unsigned_bytes(&text[0..d1], 0xFFFF_FFFFu64);
    let m = parse_unsigned_bytes(&text[d1 + 1..d2], 0xFFFF_FFFFu64);
    let d = parse_unsigned_bytes(&text[d2 + 1..n], 0xFFFF_FFFFu64);
    match (y, m, d) {
        (Some(y), Some(m), Some(d)) => Some((y as u32, m as u32, d as u32)),
        _ => None,
    }
}

/// Lexicographic order on `(year, month, day)`.
pub open spec fn date_lt(a: (u32, u32, u32), b: (u32, u32, u32)) -> bool {
    a.0 < b.0 || (a.0 == b.0 && (a.1 < b.1 || (a.1 == b.1 && a.2 < b.2)))
}

pub(crate) fn date_less(a: (u32, u32, u32), b: (u32, u32, u32)) -> (r: bool)
    ensures
        r == date_lt(a, b),
{
    a.0 < b.0 || (a.0 == b.0 && (a.1 < b.1 || (a.1 == b.1 && a.2 < b.2)))
}

/// Whether child `c` is a top-level dated block strictly later than `nd`.
pub open spec fn is_later_dated(src: Seq<u8>, c: Child, nd: (u32, u32, u32)) -> bool {
    &&& c.key is Some
    &&& c.val is Block
    &&& parse_date_spec(src.subrange(key_start(c), key_end(c))) matches Some(d)
    &&& date_lt(nd, d)
}

pub open spec fn later_dated(src: Seq<u8>, nd: (u32, u32, u32)) -> spec_fn(Child) -> bool {
    |c: Child| is_later_dated(src, c, nd)
}

pub open spec fn newline_of(s: Seq<u8>) -> Seq<u8> {
    if has_crlf(s) {
        seq![13u8, 10u8]
    } else {
        seq![10u8]
    }
}

/// Inserts a new top-level `Y.M.D = { ... }` block before the first top-level
/// dated block with a later date, else appends it at the end of the file.
pub open spec fn insert_dated_spec(src: Seq<u8>, date: Seq<char>, statement: Seq<char>) -> Result<Seq<u8>, Seq<char>> {
    match parse_date_spec(vstd::utf8::encode_utf8(date)) {
        None => Err("Invalid date for dated block: "@ + date),
        Some(nd) => {
            let toks = tokens(src);
            let kids = children_from(toks, 0, toks.len() as int);
            match nth_from(kids, later_dated(src, nd), 0, 0) {
                None => append_spec(src, statement),
                Some(j) => {
                    let pos = line_start_of(src, kids[j].stmt_start as int);
                    let nl = newline_of(src);
                    match build_indented_spec(statement, Seq::empty(), nl) {
                        Err(m) => Err(m),
                        Ok(body) => Ok(splice(src, pos, pos, body + nl)),
                    }
                },
            }
        },
    }
}

fn insert_dated_block(src: &[u8], toks: &Vec<Tok>, date: &str, statement: &str) -> (r: Result<Vec<u8>, String>)
    requires
        toks@ == tokens(src@),
        toks_wf(src@, toks@),
    ensures
        same_result(r, insert_dated_spec(src@, date@, statement@)),
        r matches Ok(v) ==> inserts_at_one_place(src@, v@),
{
    let nd = match parse_date(date.as_bytes()) {
        Some(d) => d,
        None => {
            let mut m = String::from_str("Invalid date for dated block: ");
            m.append(date);
            return Err(m);
        },
    };
    let kids = children(src, toks, 0, toks.len());
    let ghost p = later_dated(src@, nd);
    let mut j: usize = 0;
    while j < kids.len()
        invariant
            j <= kids@.len(),
            children_ok(src@, toks@, kids@),
            toks@ == tokens(src@),
            parse_date_spec(vstd::utf8::encode_utf8(date@)) == Some(nd),
            kids@ == children_from(toks@, 0, toks@.len() as int),
            p == later_dated(src@, nd),
            nth_from(kids@, p, j as int, 0) == nth_from(kids@, p, 0, 0),
        decreases kids@.len() - j,
    {
        let c = kids[j];
        assert(child_ok(src@, toks@, c));
        let m = match (c.key, c.val) {
            (Some((ks, ke)), ValLoc::Block(_, _)) => match parse_date(&src[ks..ke]) {
                Some(d) => date_less(nd, d),
                None => false,
            },
            _ => false,
        };
        assert(m == p(c));
        if m {
            assert(nth_from(kids@, p, 0, 0) == Some(j as int));
            let pos = line_start(src, c.stmt_start);
            let nl: Vec<u8> = if contains_crlf(src) {
                vec![13u8, 10u8]
            } else {
                vec![10u8]
            };
            assert(nl@ == newline_of(src@));
            let empty: Vec<u8> = Vec::new();
            let mut body = match build_indented(statement, empty.as_slice(), nl.as_slice()) {
                Ok(b) => b,
                Err(m) => return Err(m),
            };
            assert(empty@ == Seq::<u8>::empty());
            let ghost b0 = body@;
            body.extend_from_slice(nl.as_slice());
            assert(body@ == b0 + nl@);
            let out = splice_exec(src, pos, pos, body.as_slice());
            assert(out@ == splice(src@, pos as int, pos as int, body@));
            return Ok(out);
        }
        j = j + 1;
    }
    append_text(src, statement)
}

// ---------------------------------------------------------------------------
// Ruler rename.
// ---------------------------------------------------------------------------

/// Byte span of the value of `key = <value>` for the nested key `path`
/// inside the block opened at token `open_idx`.
pub open spec fn value_span_in(src: Seq<u8>, toks: Seq<Tok>, open_idx: int, path: Seq<Seq<u8>>) -> Option<(usize, usize)>
    decreases path.len(), toks.len() - open_idx, 1int,
{
    if path.len() == 0 || open_idx < 0 || open_idx >= toks.len() {
        None
    } else {
        proof {
            crate::navigate::lemma_skip_block(toks, open_idx);
        }
        value_span_scan(src, toks, open_idx + 1, crate::navigate::skip_block(toks, open_idx), path)
    }
}

/// Scans tokens `[i, end)` of a block for the key `path[0]`.
pub open spec fn value_span_scan(src: Seq<u8>, toks: Seq<Tok>, i: int, end: int, path: Seq<Seq<u8>>) -> Option<(usize, usize)>
    decreases path.len(), toks.len() - i, 0int,
{
    if path.len() == 0 || i < 0 || i + 2 >= end || end > toks.len() {
        None
    } else if toks[i] is Sym && toks[i + 1] is Eq {
        let km = eq_ignore_case(src.subrange(toks[i]->Sym_0 as int, toks[i]->Sym_1 as int), path[0]);
        match toks[i + 2] {
            Tok::Open(_) => {
                let inner = if km && path.len() > 1 {
                    value_span_in(src, toks, i + 2, path.drop_first())
                } else {
                    None
                };
                if inner is Some {
                    inner
                } else {
                    proof {
                        crate::navigate::lemma_skip_block(toks, i + 2);
                    }
                    value_span_scan(src, toks, crate::navigate::skip_block(toks, i + 2), end, path)
                }
            },
            Tok::Sym(s, e) => if km && path.len() == 1 {
                Some((s, e))
            } else {
                value_span_scan(src, toks, i + 3, end, path)
            },
            _ => value_span_scan(src, toks, i + 1, end, path),
        }
    } else {
        value_span_scan(src, toks, i + 1, end, path)
    }
}

/// Spans returned by the scan are symbol tokens of `src`.
pub open spec fn span_ok(src: Seq<u8>, sp: Option<(usize, usize)>) -> bool {
    sp matches Some((s, e)) ==> s < e <= src.len()
}

fn find_value_span(src: &[u8], toks: &Vec<Tok>, open_idx: usize, path: &[&[u8]]) -> (r: Option<(usize, usize)>)
    requires
        toks_wf(src@, toks@),
        open_idx < toks@.len(),
        toks@[open_idx as int] is Open,
    ensures
        r == value_span_in(src@, toks@, open_idx as int, path_view(path@)),
        span_ok(src@, r),
    decreases path@.len(), toks@.len() - open_idx, 1int,
{
    let ghost pv = path_view(path@);
    if path.len() == 0 {
        return None;
    }
    let end = crate::navigate::skip_block_exec(toks, open_idx);
    let mut i = open_idx + 1;
    while i < end && end - i > 2
        invariant
            open_idx < i,
            end <= toks@.len(),
            toks_wf(src@, toks@),
            path@.len() > 0,
            pv == path_view(path@),
            value_span_scan(src@, toks@, i as int, end as int, pv) == value_span_in(src@, toks@, open_idx as int, pv),
        decreases toks@.len() - i,
    {
        let is_pair = match (toks[i], toks[i + 1]) {
            (Tok::Sym(_, _), Tok::Eq(_)) => true,
            _ => false,
        };
        if is_pair {
            let (ks, ke) = match toks[i] {
                Tok::Sym(a, b) => (a, b),
                _ => (0, 0),
            };
            assert(tok_ok(src@, toks@[i as int]));
            assert(tok_ok(src@, toks@[i + 2]));
            assert(path@[0]@ == pv[0]);
            let key_matches = bytes_eq_ignore_case(&src[ks..ke], path[0]);
            match toks[i + 2] {
                Tok::Open(_) => {
                    if key_matches && path.len() > 1 {
                        let rest = &path[1..path.len()];
                        assert(path_view(rest@) =~= pv.drop_first());
                        let sub = find_value_span(src, toks, i + 2, rest);
                        if sub.is_some() {
                            return sub;
                        }
                    }
                    i = crate::navigate::skip_block_exec(toks, i + 2);
                    continue;
                },
                Tok::Sym(s, e) => {
                    if key_matches && path.len() == 1 {
                        return Some((s, e));
                    }
                    i = i + 3;
                    continue;
                },
                _ => {},
            }
        }
        i = i + 1;
    }
    None
}

/// The game's start date, 1444.11.11.
pub open spec fn default_start() -> (u32, u32, u32) {
    (1444u32, 11u32, 11u32)
}

/// The nested key path `monarch` / `name`.
pub open spec fn monarch_name() -> Seq<Seq<u8>> {
    seq![seq![109u8, 111u8, 110u8, 97u8, 114u8, 99u8, 104u8], seq![110u8, 97u8, 109u8, 101u8]]
}

/// Folds the top-level `date = { ... }` blocks from token `i` on: the
/// monarch-name span of the latest dated block on or before the start date
/// (file order breaks ties towards the later block).
pub open spec fn ruler_scan(src: Seq<u8>, toks: Seq<Tok>, i: int, best: Option<((u32, u32, u32), (usize, usize))>) -> Option<((u32, u32, u32), (usize, usize))>
    decreases toks.len() - i,
{
    if i < 0 || i + 2 >= toks.len() {
        best
    } else if toks[i] is Sym && toks[i + 1] is Eq && toks[i + 2] is Open {
        let key = src.subrange(toks[i]->Sym_0 as int, toks[i]->Sym_1 as int);
        let nb = match parse_date_spec(key) {
            Some(d) => if !date_lt(default_start(), d) {
                match value_span_in(src, toks, i + 2, monarch_name()) {
                    Some(sp) => match best {
                        None => Some((d, sp)),
                        Some((bd, _)) => if !date_lt(d, bd) {
                            Some((d, sp))
                        } else {
                            best
                        },
                    },
                    None => best,
                }
            } else {
                best
            },
            None => best,
        };
        proof {
            crate::navigate::lemma_skip_block(toks, i + 2);
        }
        ruler_scan(src, toks, crate::navigate::skip_block(toks, i + 2), nb)
    } else {
        ruler_scan(src, toks, i + 1, best)
    }
}

/// Renames the starting ruler: the monarch of the latest dated block on or
/// before 1444.11.11, written quoted in Windows-1252.
pub open spec fn rename_ruler_spec(src: Seq<u8>, new_name: Seq<char>) -> Result<Seq<u8>, Seq<char>> {
    match ruler_scan(src, tokens(src), 0, None) {
        None => Err("No starting ruler (monarch before 1444.11.11) found in history file"@),
        Some((_, sp)) => Ok(splice(src, sp.0 as int, sp.1 as int, seq![34u8] + windows_1252_bytes(new_name) + seq![34u8])),
    }
}

/// Renames the starting ruler (the monarch of the latest dated block on or
/// before 1444.11.11) in a country history file. Returns the new file bytes.
pub fn rename_ruler(src: &[u8], new_name: &str) -> (r: Result<Vec<u8>, String>)
    ensures
        same_result(r, rename_ruler_spec(src@, new_name@)),
{
    let toks = tokenize(src);
    let monarch: [u8; 7] = [109, 111, 110, 97, 114, 99, 104];
    let name: [u8; 4] = [110, 97, 109, 101];
    let mut path: Vec<&[u8]> = Vec::new();
    path.push(monarch.as_slice());
    path.push(name.as_slice());
    assert(path_view(path@) =~= monarch_name());
    let mut best: Option<((u32, u32, u32), (usize, usize))> = None;
    let mut i: usize = 0;
    while i < toks.len() && toks.len() - i > 2
        invariant
            toks_wf(src@, toks@),
            toks@ == tokens(src@),
            path_view(path@) == monarch_name(),
            span_ok(src@, match best { Some((_, sp)) => Some(sp), None => None }),
            ruler_scan(src@, toks@, i as int, best) == ruler_scan(src@, toks@, 0, None),
        decreases toks@.len() - i,
    {
        let is_block = match (toks[i], toks[i + 1], toks[i + 2]) {
            (Tok::Sym(_, _), Tok::Eq(_), Tok::Open(_)) => true,
            _ => false,
        };
        if is_block {
            let (ks, ke) = match toks[i] {
                Tok::Sym(a, b) => (a, b),
                _ => (0, 0),
            };
            assert(tok_ok(src@, toks@[i as int]));
            if let Some(date) = parse_date(&src[ks..ke]) {
                if !date_less((1444, 11, 11), date) {
                    if let Some(span) = find_value_span(src, &toks, i + 2, path.as_slice()) {
                        let take = match best {
                            None => true,
                            Some((d, _)) => !date_less(date, d),
                        };
                        if take {
                            best = Some((date, span));
                        }
                    }
                }
            }
            i = crate::navigate::skip_block_exec(&toks, i + 2);
            continue;
        }
        i = i + 1;
    }
    let (start, end) = match best {
        Some((_, sp)) => sp,
        None => return Err(String::from_str("No starting ruler (monarch before 1444.11.11) found in history file")),
    };
    let enc = encode_windows_1252(new_name);
    let mut rep: Vec<u8> = Vec::new();
    rep.push(34);
    rep.extend_from_slice(enc.as_slice());
    rep.push(34);
    assert(rep@ =~= seq![34u8] + windows_1252_bytes(new_name@) + seq![34u8]);
    Ok(splice_exec(src, start, end, rep.as_slice()))
}

// ---------------------------------------------------------------------------
// Spans API: read-only block/child addressing for the typed script tree. All
// returned byte spans index the original `src`.
// ---------------------------------------------------------------------------

/// The UTF-8 bytes of each path segment.
pub open spec fn string_path(p: Seq<String>) -> Seq<Seq<u8>> {
    p.map_values(|s: String| vstd::utf8::encode_utf8(s@))
}

fn path_bytes(p: &[String]) -> (r: Vec<&[u8]>)
    ensures
        path_view(r@) == string_path(p@),
{
    let mut out: Vec<&[u8]> = Vec::new();
    let mut i: usize = 0;
    while i < p.len()
        invariant
            i <= p@.len(),
            out@.len() == i,
            forall|k: int| 0 <= k < i ==> (#[trigger] out@[k])@ == vstd::utf8::encode_utf8(p@[k]@),
        decreases p@.len() - i,
    {
        out.push(p[i].as_str().as_bytes());
        i = i + 1;
    }
    assert(path_view(out@) =~= string_path(p@));
    out
}

/// The braces-inclusive byte span of the block addressed by `path`; the whole
/// file for the empty path.
pub open spec fn block_span_spec(src: Seq<u8>, path: Seq<Seq<u8>>) -> Option<(usize, usize)> {
    match locate(src, tokens(src), path) {
        None => None,
        Some(loc) => Some(
            match loc.braces {
                Some((ob, cb)) => (ob, (cb + 1) as usize),
                None => (0usize, src.len() as usize),
            },
        ),
    }
}

/// The braces-inclusive byte span of the block addressed by `path` (segments
/// may carry `#n` occurrence suffixes). An empty path is the whole file.
/// `None` if the path doesn't resolve.
pub fn block_span(src: &[u8], path: &[String]) -> (r: Option<(usize, usize)>)
    ensures
        r == block_span_spec(src@, string_path(path@)),
        r matches Some((s, e)) ==> s < e <= src@.len() || (s == 0 && e == src@.len()),
{
    let toks = tokenize(src);
    let pb = path_bytes(path);
    let loc = match locate_block(src, &toks, &pb) {
        Some(l) => l,
        None => return None,
    };
    assert(src@.len() == src.len());
    Some(
        match loc.braces {
            Some((ob, cb)) => (ob, cb + 1),
            None => (0, src.len()),
        },
    )
}

/// One direct child (statement) of a block, exposed for the typed-tree builder.
#[derive(Debug)]
pub struct ChildSpan {
    /// Key text, or `None` for a bare list element / anonymous `{ … }` block.
    pub key: Option<String>,
    /// 0-based occurrence of this key among same-kind (block vs scalar)
    /// siblings: exactly what `key#n` addressing counts for a block child.
    pub occurrence: usize,
    /// Whether the value is a `{ … }` block.
    pub is_block: bool,
    /// Byte span of the value: braces-inclusive for a block, the token span for
    /// a scalar or bare list element.
    pub value_span: (usize, usize),
    /// Byte span of the whole statement (key start .. value end).
    pub stmt_span: (usize, usize),
}

/// The decoded key text of a child.
pub open spec fn child_key_text(src: Seq<u8>, c: Child) -> Option<Seq<char>> {
    match c.key {
        Some((ks, ke)) => Some(lossy_utf8(src.subrange(ks as int, ke as int))),
        None => None,
    }
}

/// Whether `a` and `b` are keyed alike and of the same kind (block or scalar).
pub open spec fn same_kind_key(src: Seq<u8>, a: Child, b: Child) -> bool {
    &&& a.key is Some
    &&& b.key is Some
    &&& (a.val is Block) == (b.val is Block)
    &&& child_key_text(src, a) == child_key_text(src, b)
}

/// How many of the first `k` children are keyed alike with, and of the same
/// kind as, child `c`.
pub open spec fn count_same(src: Seq<u8>, kids: Seq<Child>, c: Child, k: int) -> nat
    decreases k,
{
    if k <= 0 || k > kids.len() {
        0
    } else {
        count_same(src, kids, c, k - 1) + if same_kind_key(src, kids[k - 1], c) {
            1nat
        } else {
            0nat
        }
    }
}

/// The occurrence index of child `j` among its same-key, same-kind siblings.
pub open spec fn occurrence_of(src: Seq<u8>, kids: Seq<Child>, j: int) -> nat {
    if kids[j].key is None {
        0
    } else {
        count_same(src, kids, kids[j], j)
    }
}

/// The value span of a child: braces-inclusive for a block.
pub open spec fn value_span_of(toks: Seq<Tok>, c: Child) -> (usize, usize) {
    match c.val {
        ValLoc::Scalar(s, e) => (s, e),
        ValLoc::Block(ot, ct) => {
            let ob = match toks[ot as int] {
                Tok::Open(b) => b,
                _ => c.stmt_start,
            };
            let cb = match toks[ct as int] {
                Tok::Close(b) => b,
                _ => if c.stmt_end >= 1 {
                    (c.stmt_end - 1) as usize
                } else {
                    0usize
                },
            };
            (ob, (cb + 1) as usize)
        },
    }
}

/// The span record of child `j`.
pub open spec fn span_matches(src: Seq<u8>, toks: Seq<Tok>, kids: Seq<Child>, j: int, cs: ChildSpan) -> bool {
    &&& (match cs.key {
        Some(k) => Some(k@),
        None => None,
    }) == child_key_text(src, kids[j])
    &&& cs.occurrence == occurrence_of(src, kids, j)
    &&& cs.is_block == (kids[j].val is Block)
    &&& cs.value_span == value_span_of(toks, kids[j])
    &&& cs.stmt_span == (kids[j].stmt_start, kids[j].stmt_end)
}

/// The direct children of the block at `path`, in file order.
pub open spec fn block_children_ok(src: Seq<u8>, path: Seq<Seq<u8>>, r: Option<Vec<ChildSpan>>) -> bool {
    match locate(src, tokens(src), path) {
        None => r is None,
        Some(loc) => {
            let kids = children_from(tokens(src), loc.cs as int, loc.ce as int);
            &&& r is Some
            &&& r->0@.len() == kids.len()
            &&& forall|j: int| 0 <= j < kids.len() ==> span_matches(src, tokens(src), kids, j, #[trigger] r->0@[j])
        },
    }
}

/// The mathematical content of a [`ChildSpan`].
pub struct SpanView {
    pub key: Option<Seq<char>>,
    pub occurrence: nat,
    pub is_block: bool,
    pub value_span: (usize, usize),
    pub stmt_span: (usize, usize),
}

impl ChildSpan {
    pub open spec fn sview(&self) -> SpanView {
        SpanView {
            key: match self.key {
                Some(k) => Some(k@),
                None => None,
            },
            occurrence: self.occurrence as nat,
            is_block: self.is_block,
            value_span: self.value_span,
            stmt_span: self.stmt_span,
        }
    }
}

/// The span record of child `j` of `kids`.
pub open spec fn span_of(src: Seq<u8>, toks: Seq<Tok>, kids: Seq<Child>, j: int) -> SpanView {
    SpanView {
        key: child_key_text(src, kids[j]),
        occurrence: occurrence_of(src, kids, j),
        is_block: kids[j].val is Block,
        value_span: value_span_of(toks, kids[j]),
        stmt_span: (kids[j].stmt_start, kids[j].stmt_end),
    }
}

/// The span records of the direct children of the block at `path`.
pub open spec fn child_spans(src: Seq<u8>, path: Seq<Seq<u8>>) -> Option<Seq<SpanView>> {
    match locate(src, tokens(src), path) {
        None => None,
        Some(loc) => {
            let kids = children_from(tokens(src), loc.cs as int, loc.ce as int);
            Some(Seq::new(kids.len(), |j: int| span_of(src, tokens(src), kids, j)))
        },
    }
}

pub open spec fn spans_view(v: Seq<ChildSpan>) -> Seq<SpanView> {
    v.map_values(|c: ChildSpan| c.sview())
}

fn opt_str_eq(a: &Option<String>, b: &Option<String>) -> (r: bool)
    ensures
        r == (a is Some && b is Some && a->0@ == b->0@),
{
    match (a, b) {
        (Some(x), Some(y)) => crate::text::str_eq(x.as_str(), y.as_str()),
        _ => false,
    }
}

/// Direct children, in file order, of the block addressed by `path`. `None`
/// if the path doesn't resolve to a block. Anonymous nested blocks are
/// reported as keyless children.
pub fn block_children(src: &[u8], path: &[String]) -> (r: Option<Vec<ChildSpan>>)
    ensures
        block_children_ok(src@, string_path(path@), r),
        r is None <==> child_spans(src@, string_path(path@)) is None,
        r matches Some(v) ==> child_spans(src@, string_path(path@)) == Some(spans_view(v@)),
        r matches Some(v) ==> forall|j: int| 0 <= j < v@.len() ==> {
            let c = #[trigger] v@[j];
            &&& c.stmt_span.0 < c.stmt_span.1 <= src@.len()
            &&& c.value_span.0 < c.value_span.1 <= src@.len()
            &&& c.stmt_span.0 <= c.value_span.0
            &&& c.value_span.1 <= c.stmt_span.1
            &&& (c.is_block ==> src@[c.value_span.0 as int] == 123)
        },
{
    let toks = tokenize(src);
    let pb = path_bytes(path);
    let loc = match locate_block(src, &toks, &pb) {
        Some(l) => l,
        None => return None,
    };
    let kids = children(src, &toks, loc.cs, loc.ce);
    let mut out: Vec<ChildSpan> = Vec::new();
    let mut j: usize = 0;
    while j < kids.len()
        invariant
            j <= kids@.len(),
            toks@ == tokens(src@),
            toks_wf(src@, toks@),
            children_ok(src@, toks@, kids@),
            kids@ == children_from(toks@, loc.cs as int, loc.ce as int),
            out@.len() == j,
            forall|k: int| 0 <= k < j ==> span_matches(src@, toks@, kids@, k, #[trigger] out@[k]),
            forall|k: int| 0 <= k < j ==> {
                let c = #[trigger] out@[k];
                &&& c.stmt_span.0 < c.stmt_span.1 <= src@.len()
                &&& c.value_span.0 < c.value_span.1 <= src@.len()
                &&& c.stmt_span.0 <= c.value_span.0
                &&& c.value_span.1 <= c.stmt_span.1
                &&& (c.is_block ==> src@[c.value_span.0 as int] == 123)
            },
        decreases kids@.len() - j,
    {
        let c = kids[j];
        assert(child_ok(src@, toks@, c));
        let key = match c.key {
            Some((ks, ke)) => Some(lossy_string(&src[ks..ke])),
            None => None,
        };
        let is_block = matches!(c.val, ValLoc::Block(_, _));
        let mut occurrence: usize = 0;
        if key.is_some() {
            let mut k: usize = 0;
            while k < j
                invariant
                    k <= j < kids@.len(),
                    key is Some,
                    (match key {
                        Some(s) => Some(s@),
                        None => None,
                    }) == child_key_text(src@, c),
                    c == kids@[j as int],
                    is_block == (c.val is Block),
                    out@.len() == j,
                    forall|m: int| 0 <= m < j ==> span_matches(src@, toks@, kids@, m, #[trigger] out@[m]),
                    occurrence == count_same(src@, kids@, c, k as int),
                    occurrence <= k,
                decreases j - k,
            {
                assert(span_matches(src@, toks@, kids@, k as int, out@[k as int]));
                if out[k].is_block == is_block && opt_str_eq(&out[k].key, &key) {
                    occurrence = occurrence + 1;
                }
                k = k + 1;
            }
        }
        let value_span = match c.val {
            ValLoc::Scalar(s, e) => (s, e),
            ValLoc::Block(ot, ct) => {
                let ob = match toks[ot] {
                    Tok::Open(b) => b,
                    _ => c.stmt_start,
                };
                let cb = match toks[ct] {
                    Tok::Close(b) => b,
                    _ => if c.stmt_end >= 1 {
                        c.stmt_end - 1
                    } else {
                        0
                    },
                };
                (ob, cb + 1)
            },
        };
        proof {
            if c.val is Block {
                assert(tok_ok(src@, toks@[c.val->Block_0 as int]));
                assert(tok_ok(src@, toks@[c.val->Block_1 as int]));
            }
        }
        let span = ChildSpan { key, occurrence, is_block, value_span, stmt_span: (c.stmt_start, c.stmt_end) };
        out.push(span);
        j = j + 1;
    }
    proof {
        let kids_s = kids@;
        assert forall|k: int| 0 <= k < kids_s.len() implies #[trigger] spans_view(out@)[k] == span_of(src@, toks@, kids_s, k) by {
            assert(span_matches(src@, toks@, kids_s, k, out@[k]));
        }
        assert(spans_view(out@) =~= Seq::new(kids_s.len(), |j: int| span_of(src@, toks@, kids_s, j)));
    }
    Some(out)
}

// ---------------------------------------------------------------------------
// Occurrence addressing: `block_children` and `key#n` paths agree.
// ---------------------------------------------------------------------------

/// The children of the block addressed by `path` (none when it does not resolve).
pub open spec fn located_children(src: Seq<u8>, path: Seq<Seq<u8>>) -> Seq<Child> {
    match locate(src, tokens(src), path) {
        Some(loc) => children_from(tokens(src), loc.cs as int, loc.ce as int),
        None => Seq::empty(),
    }
}

/// The raw bytes of a child's key.
pub open spec fn key_bytes(src: Seq<u8>, c: Child) -> Seq<u8> {
    src.subrange(key_start(c), key_end(c))
}

/// The path segment `key#n`.
pub open spec fn occ_segment(key: Seq<u8>, n: nat) -> Seq<u8> {
    key + seq![35u8] + digit_bytes(n)
}

/// Among the block children `kids`, any key equal to that of child `j`
/// ignoring ASCII case, or with the same decoded text, is byte-for-byte the
/// same key.
pub open spec fn key_unambiguous(src: Seq<u8>, kids: Seq<Child>, j: int) -> bool {
    forall|i: int|
        #![trigger kids[i]]
        0 <= i < kids.len() && kids[i].key is Some && kids[i].val is Block ==> {
            &&& eq_ignore_case(key_bytes(src, kids[i]), key_bytes(src, kids[j])) == (key_bytes(src, kids[i])
                == key_bytes(src, kids[j]))
            &&& (lossy_utf8(key_bytes(src, kids[i])) == lossy_utf8(key_bytes(src, kids[j]))) == (key_bytes(
                src,
                kids[i],
            ) == key_bytes(src, kids[j]))
        }
}

/// How many of the first `k` children satisfy `p`.
pub open spec fn count_upto(kids: Seq<Child>, p: spec_fn(Child) -> bool, k: int) -> nat
    decreases k,
{
    if k <= 0 || k > kids.len() {
        0
    } else {
        count_upto(kids, p, k - 1) + if p(kids[k - 1]) {
            1nat
        } else {
            0nat
        }
    }
}

/// A block's contents `[i, ce)` have at most `ce - i` direct children.
pub proof fn lemma_children_from_len(toks: Seq<Tok>, i: int, ce: int)
    requires
        0 <= i,
    ensures
        children_from(toks, i, ce).len() <= if i < ce {
            ce - i
        } else {
            0
        },
    decreases toks.len() - i,
{
    if i < ce && ce <= toks.len() {
        match toks[i] {
            Tok::Sym(ks, ke) => {
                if i + 1 < ce && toks[i + 1] is Eq {
                    if i + 2 >= ce {
                        lemma_children_from_len(toks, i + 1, ce);
                    } else {
                        match toks[i + 2] {
                            Tok::Open(_) => {
                                lemma_skip_block(toks, i + 2);
                                lemma_children_from_len(toks, skip_block(toks, i + 2), ce);
                            },
                            Tok::Sym(_, _) => lemma_children_from_len(toks, i + 3, ce),
                            _ => lemma_children_from_len(toks, i + 1, ce),
                        }
                    }
                } else {
                    lemma_children_from_len(toks, i + 1, ce);
                }
            },
            Tok::Open(_) => {
                lemma_skip_block(toks, i);
                lemma_children_from_len(toks, skip_block(toks, i), ce);
            },
            _ => lemma_children_from_len(toks, i + 1, ce),
        }
    }
}

proof fn lemma_nth_count(kids: Seq<Child>, p: spec_fn(Child) -> bool, i: int, j: int)
    requires
        0 <= i <= j < kids.len(),
        p(kids[j]),
    ensures
        count_upto(kids, p, i) <= count_upto(kids, p, j),
        nth_from(kids, p, i, (count_upto(kids, p, j) - count_upto(kids, p, i)) as nat) == Some(j),
    decreases j - i,
{
    if i < j {
        lemma_nth_count(kids, p, i + 1, j);
        assert(count_upto(kids, p, i + 1) == count_upto(kids, p, i) + if p(kids[i]) {
            1nat
        } else {
            0nat
        });
    }
}

proof fn lemma_count_same_upto(src: Seq<u8>, kids: Seq<Child>, j: int, k: int)
    requires
        0 <= k <= j < kids.len(),
        kids[j].key is Some,
        kids[j].val is Block,
        key_unambiguous(src, kids, j),
    ensures
        count_same(src, kids, kids[j], k) == count_upto(kids, block_named(src, key_bytes(src, kids[j])), k),
    decreases k,
{
    if k > 0 {
        lemma_count_same_upto(src, kids, j, k - 1);
        let c = kids[k - 1];
        if c.key is Some && c.val is Block {
            assert(kids[k - 1] == c);
        }
        assert(same_kind_key(src, c, kids[j]) == block_named(src, key_bytes(src, kids[j]))(c));
    }
}

proof fn lemma_split_occ_segment(key: Seq<u8>, n: nat)
    requires
        n <= usize::MAX,
    ensures
        split_occ(occ_segment(key, n)) == (key, Some(n)),
{
    let seg = occ_segment(key, n);
    let p = key.len() as int;
    lemma_digit_bytes(n, usize::MAX as nat);
    assert forall|i: int| p + 1 <= i <= seg.len() implies last_hash_before(seg, i) == Some(p) by {
        lemma_last_hash_tail(seg, p, i);
    }
    assert(seg.subrange(p + 1, seg.len() as int) =~= digit_bytes(n));
    assert(seg.subrange(0, p) =~= key);
}

proof fn lemma_last_hash_tail(seg: Seq<u8>, p: int, i: int)
    requires
        0 <= p < i <= seg.len(),
        seg[p] == 35,
        forall|k: int| p < k < seg.len() ==> is_digit(#[trigger] seg[k]),
    ensures
        last_hash_before(seg, i) == Some(p),
    decreases i,
{
    if i > p + 1 {
        assert(is_digit(seg[i - 1]));
        lemma_last_hash_tail(seg, p, i - 1);
    }
}

proof fn lemma_locate_push(src: Seq<u8>, toks: Seq<Tok>, path: Seq<Seq<u8>>, s: Seq<u8>, k: int, cur: Located)
    requires
        0 <= k <= path.len(),
    ensures
        locate_from(src, toks, path.push(s), k, cur) == match locate_from(src, toks, path, k, cur) {
            None => None,
            Some(l) => locate_from(src, toks, path.push(s), path.len() as int, l),
        },
    decreases path.len() - k,
{
    if k < path.len() {
        assert(path.push(s)[k] == path[k]);
        let (base, occ) = split_occ(path[k]);
        let kids = children_from(toks, cur.cs as int, cur.ce as int);
        match nth_from(kids, block_named(src, base), 0, occ_index(occ)) {
            None => {},
            Some(j) => {
                let ot = kids[j].val->Block_0 as int;
                let ct = kids[j].val->Block_1 as int;
                if toks[ot] is Open && toks[ct] is Close {
                    let next = Located {
                        cs: (ot + 1) as usize,
                        ce: ct as usize,
                        braces: Some((toks[ot]->Open_0, toks[ct]->Close_0)),
                    };
                    lemma_locate_push(src, toks, path, s, k + 1, next);
                }
            },
        }
    }
}

/// Occurrence addressing: child `j` of the block at `path`, a closed block
/// keyed by the bytes `k`, is the block that the path `path ++ [k#n]`
/// resolves to, where `n` is the occurrence `block_children` reports for it,
/// provided no sibling block's key equals `k` ignoring ASCII case (or by
/// decoded text) without being `k` itself. Each premise leaves out only
/// inputs on which the law fails: an unclosed block has a value span but no
/// addressable span; a case-variant sibling is counted by `#n` but not by the
/// occurrence; and two different ill-formed keys that decode to the same text
/// are counted together by the occurrence but not by `#n`.
pub proof fn lemma_occurrence_addressing(src: Seq<u8>, path: Seq<Seq<u8>>, j: int)
    requires
        src.len() <= usize::MAX,
        locate(src, tokens(src), path) is Some,
        0 <= j < located_children(src, path).len(),
        located_children(src, path)[j].key is Some,
        located_children(src, path)[j].val is Block,
        tokens(src)[located_children(src, path)[j].val->Block_1 as int] is Close,
        key_unambiguous(src, located_children(src, path), j),
    ensures
        ({
            let c = located_children(src, path)[j];
            &&& child_spans(src, path) matches Some(sp)
            &&& j < sp.len()
            &&& sp[j].key == Some(lossy_utf8(key_bytes(src, c)))
            &&& sp[j].is_block
            &&& block_span_spec(src, path.push(occ_segment(key_bytes(src, c), sp[j].occurrence)))
                == Some(sp[j].value_span)
        }),
{
    let toks = tokens(src);
    lemma_tokens_wf(src);
    lemma_tokens_len(src, toks);
    let loc = locate(src, toks, path)->0;
    lemma_locate_ok(src, toks, path);
    let kids = located_children(src, path);
    lemma_children_ok(src, toks, loc.cs as int, loc.ce as int);
    lemma_children_from_len(toks, loc.cs as int, loc.ce as int);
    let c = kids[j];
    assert(child_ok(src, toks, c));
    let kb = key_bytes(src, c);
    let sp = child_spans(src, path)->0;
    let n = occurrence_of(src, kids, j);
    assert(sp[j] == span_of(src, toks, kids, j));
    let p = block_named(src, kb);
    lemma_count_same_upto(src, kids, j, j);
    lemma_nth_count(kids, p, 0, j);
    assert(count_upto(kids, p, 0) == 0);
    assert(n == count_upto(kids, p, j));
    assert(n <= j) by {
        lemma_count_upto_le(kids, p, j);
    }
    lemma_split_occ_segment(kb, n);
    let seg = occ_segment(kb, n);
    lemma_locate_push(src, toks, path, seg, 0, top_level(toks));
    let full = path.push(seg);
    assert(full[path.len() as int] == seg);
    assert(nth_from(kids, p, 0, n) == Some(j));
    assert(split_occ(full[path.len() as int]) == (kb, Some(n)));
    assert(occ_index(Some(n)) == n);
    let ot = c.val->Block_0 as int;
    let ct = c.val->Block_1 as int;
    assert(toks[ot] is Open);
    let next = Located {
        cs: (ot + 1) as usize,
        ce: ct as usize,
        braces: Some((toks[ot]->Open_0, toks[ct]->Close_0)),
    };
    assert(locate_from(src, toks, full, path.len() + 1int, next) == Some(next));
    assert(locate_from(src, toks, full, path.len() as int, loc) == Some(next));
    assert(locate(src, toks, full) == Some(next));
    assert(value_span_of(toks, c) == (toks[ot]->Open_0, (toks[ct]->Close_0 + 1) as usize));
}

pub proof fn lemma_nth_first(kids: Seq<Child>, p: spec_fn(Child) -> bool, i: int, j: int)
    requires
        0 <= i <= j < kids.len(),
        p(kids[j]),
        forall|k: int| i <= k < j ==> !p(#[trigger] kids[k]),
    ensures
        nth_from(kids, p, i, 0) == Some(j),
    decreases j - i,
{
    if i < j {
        assert(!p(kids[i]));
        lemma_nth_first(kids, p, i + 1, j);
    }
}

/// A scalar child's path addresses it: child `j` of the block at `path`, a
/// `key = value` statement, is what `SetScalar` with the path `path ++ [key]`
/// rewrites, replacing exactly its value token, when no earlier scalar sibling
/// has the same key ignoring ASCII case and the new value is Latin-1.
pub proof fn lemma_scalar_path_addresses(src: Seq<u8>, path: Seq<Seq<u8>>, j: int, value: Seq<char>, quoted: bool)
    requires
        src.len() <= usize::MAX,
        locate(src, tokens(src), path) is Some,
        0 <= j < located_children(src, path).len(),
        located_children(src, path)[j].key is Some,
        located_children(src, path)[j].val is Scalar,
        forall|i: int|
            0 <= i < j ==> !is_scalar_named(
                src,
                #[trigger] located_children(src, path)[i],
                key_bytes(src, located_children(src, path)[j]),
            ),
        is_latin1(value),
    ensures
        ({
            let c = located_children(src, path)[j];
            &&& child_spans(src, path) matches Some(sp)
            &&& j < sp.len()
            &&& sp[j].key == Some(lossy_utf8(key_bytes(src, c)))
            &&& !sp[j].is_block
            &&& set_scalar_spec(src, path.push(key_bytes(src, c)), value, quoted) == Ok::<Seq<u8>, Seq<char>>(
                splice(
                    src,
                    sp[j].value_span.0 as int,
                    sp[j].value_span.1 as int,
                    quoted_bytes(latin1_bytes(value), quoted),
                ),
            )
        }),
{
    let toks = tokens(src);
    let kids = located_children(src, path);
    let c = kids[j];
    let kb = key_bytes(src, c);
    let full = path.push(kb);
    assert(full.drop_last() =~= path);
    assert(full.last() == kb);
    assert(scalar_named(src, kb)(c));
    assert forall|k: int| 0 <= k < j implies !scalar_named(src, kb)(#[trigger] kids[k]) by {
        assert(!is_scalar_named(src, kids[k], kb));
    }
    lemma_nth_first(kids, scalar_named(src, kb), 0, j);
    let sp = child_spans(src, path)->0;
    assert(sp[j] == span_of(src, toks, kids, j));
}

// ---------------------------------------------------------------------------
// `#0` is exactly first-match.
// ---------------------------------------------------------------------------

/// Two path segments that select the same key and the same occurrence.
pub open spec fn same_selection(a: Seq<u8>, b: Seq<u8>) -> bool {
    &&& split_occ(a).0 == split_occ(b).0
    &&& occ_index(split_occ(a).1) == occ_index(split_occ(b).1)
}

/// Two paths whose segments select alike, position by position.
pub open spec fn same_path_selection(p: Seq<Seq<u8>>, q: Seq<Seq<u8>>) -> bool {
    &&& p.len() == q.len()
    &&& forall|i: int| 0 <= i < p.len() ==> same_selection(#[trigger] p[i], q[i])
}

proof fn lemma_locate_from_same(src: Seq<u8>, toks: Seq<Tok>, p: Seq<Seq<u8>>, q: Seq<Seq<u8>>, k: int, cur: Located)
    requires
        same_path_selection(p, q),
    ensures
        locate_from(src, toks, p, k, cur) == locate_from(src, toks, q, k, cur),
    decreases p.len() - k,
{
    if 0 <= k < p.len() {
        assert(same_selection(p[k], q[k]));
        let (base, occ) = split_occ(p[k]);
        let kids = children_from(toks, cur.cs as int, cur.ce as int);
        match nth_from(kids, block_named(src, base), 0, occ_index(occ)) {
            None => {},
            Some(j) => {
                let ot = kids[j].val->Block_0 as int;
                let ct = kids[j].val->Block_1 as int;
                if toks[ot] is Open && toks[ct] is Close {
                    let next = Located {
                        cs: (ot + 1) as usize,
                        ce: ct as usize,
                        braces: Some((toks[ot]->Open_0, toks[ct]->Close_0)),
                    };
                    lemma_locate_from_same(src, toks, p, q, k + 1, next);
                }
            },
        }
    }
}

/// A segment without `#` and the same segment written `key#0` select alike.
pub proof fn lemma_zero_occurrence_segment(key: Seq<u8>)
    requires
        forall|i: int| 0 <= i < key.len() ==> #[trigger] key[i] != 35,
    ensures
        same_selection(key, occ_segment(key, 0)),
{
    lemma_split_occ_segment(key, 0);
    lemma_no_hash(key, key.len() as int);
}

pub proof fn lemma_no_hash(key: Seq<u8>, i: int)
    requires
        0 <= i <= key.len(),
        forall|k: int| 0 <= k < key.len() ==> #[trigger] key[k] != 35,
    ensures
        last_hash_before(key, i) is None,
    decreases i,
{
    if i > 0 {
        lemma_no_hash(key, i - 1);
    }
}

/// `#0` is exactly first-match: an edit whose paths select alike, segment by
/// segment (for instance where one segment `key` is written `key#0`), gives
/// the same result. For the key of a block removal or replacement, which the
/// not-found error quotes as written, the same holds of every successful edit.
pub proof fn lemma_zero_occurrence_is_first_match(
    src: Seq<u8>,
    p: Seq<Seq<u8>>,
    q: Seq<Seq<u8>>,
    key1: Seq<u8>,
    key2: Seq<u8>,
    text: Seq<char>,
    value: Option<Seq<u8>>,
    quoted: bool,
)
    requires
        same_path_selection(p, q),
        same_selection(key1, key2),
    ensures
        insert_spec(src, p, text) == insert_spec(src, q, text),
        remove_id_spec(src, p, key1) == remove_id_spec(src, q, key1),
        remove_statement_spec(src, p, key1, value) is Ok ==> remove_statement_spec(src, q, key2, value)
            == remove_statement_spec(src, p, key1, value),
        remove_statement_spec(src, q, key2, value) is Ok ==> remove_statement_spec(src, p, key1, value)
            == remove_statement_spec(src, q, key2, value),
        set_scalar_spec(src, p.push(key1), text, quoted) == set_scalar_spec(src, q.push(key1), text, quoted),
        set_block_spec(src, p.push(key1), text) is Ok ==> set_block_spec(src, q.push(key2), text)
            == set_block_spec(src, p.push(key1), text),
        set_block_spec(src, q.push(key2), text) is Ok ==> set_block_spec(src, p.push(key1), text)
            == set_block_spec(src, q.push(key2), text),
{
    let toks = tokens(src);
    lemma_locate_from_same(src, toks, p, q, 0, top_level(toks));
    assert(p.push(key1).drop_last() =~= p);
    assert(q.push(key1).drop_last() =~= q);
    assert(q.push(key2).drop_last() =~= q);
}

proof fn lemma_count_upto_le(kids: Seq<Child>, p: spec_fn(Child) -> bool, k: int)
    requires
        0 <= k <= kids.len(),
    ensures
        count_upto(kids, p, k) <= k,
    decreases k,
{
    if k > 0 {
        lemma_count_upto_le(kids, p, k - 1);
    }
}


// ---------------------------------------------------------------------------
// Public toolkit API.
// ---------------------------------------------------------------------------

/// One surgical operation targeting a single game file. Paths are ordered key
/// lists: `["1444.1.1", "monarch", "adm"]` reaches the `adm` scalar inside the
/// `monarch` block inside the `1444.1.1` dated block. An empty block path means
/// the whole file (top level).
#[derive(Debug, Clone)]
#[allow(inconsistent_fields)]
pub enum Edit {
    /// Replace the scalar value at `path` (last element is the scalar key).
    /// `quoted` wraps the value in `"`.
    SetScalar { path: Vec<String>, value: String, quoted: bool },
    /// Insert a pre-formatted statement (authored at column 0; re-indented to
    /// the block's depth) as a new child of `block_path`.
    InsertStatement { block_path: Vec<String>, statement: String },
    /// Insert a new top-level `Y.M.D = { ... }` block in date order among the
    /// existing dated blocks.
    InsertDatedBlock { date: String, statement: String },
    /// Remove the first child of `block_path` named `key` (optionally also
    /// matching scalar `value`). Handles both scalar lines and whole blocks.
    RemoveStatement { block_path: Vec<String>, key: String, value: Option<String> },
    /// Replace the `{ ... }` block value of the key at `path` (last element is
    /// the block key), emitted as `{ <value> }`.
    SetBlock { path: Vec<String>, value: String },
    /// Add a bare id to the named id-list at `list_path`.
    AddId { list_path: Vec<String>, id: String },
    /// Remove a bare id from the named id-list at `list_path`.
    RemoveId { list_path: Vec<String>, id: String },
    /// Append raw text to the end of the file.
    Append { text: String },
    /// Whole-file scaffold for a brand-new file: `src` is ignored and the file
    /// becomes exactly `text` (Latin-1 encoded).
    CreateFile { text: String },
}

/// What [`apply`] makes of `src` under edit `e`: the new bytes, or the error.
pub open spec fn apply_spec(src: Seq<u8>, e: Edit) -> Result<Seq<u8>, Seq<char>> {
    match e {
        Edit::SetScalar { path, value, quoted } => set_scalar_spec(src, string_path(path@), value@, quoted),
        Edit::SetBlock { path, value } => set_block_spec(src, string_path(path@), value@),
        Edit::InsertStatement { block_path, statement } => insert_spec(src, string_path(block_path@), statement@),
        Edit::InsertDatedBlock { date, statement } => insert_dated_spec(src, date@, statement@),
        Edit::RemoveStatement { block_path, key, value } => remove_statement_spec(
            src,
            string_path(block_path@),
            vstd::utf8::encode_utf8(key@),
            match value {
                Some(v) => Some(vstd::utf8::encode_utf8(v@)),
                None => None,
            },
        ),
        Edit::AddId { list_path, id } => insert_spec(src, string_path(list_path@), id@),
        Edit::RemoveId { list_path, id } => remove_id_spec(src, string_path(list_path@), vstd::utf8::encode_utf8(id@)),
        Edit::Append { text } => append_spec(src, text@),
        Edit::CreateFile { text } => encode_latin1_spec(text@),
    }
}

/// What an applied edit may change: a scalar or block edit replaces one
/// range with exactly the new value, an insertion only adds bytes at one
/// place, a removal only deletes one range, and a new file is the text's
/// Latin-1 bytes. Every other byte of the source is kept, in place.
pub open spec fn surgical(src: Seq<u8>, e: Edit, out: Seq<u8>) -> bool {
    match e {
        Edit::SetScalar { value, quoted, .. } => replaces_span(src, out, quoted_bytes(latin1_bytes(value@), quoted)),
        Edit::SetBlock { value, .. } => replaces_span(src, out, seq![123u8, 32u8] + latin1_bytes(value@) + seq![32u8, 125u8]),
        Edit::InsertStatement { .. } => inserts_at_one_place(src, out),
        Edit::InsertDatedBlock { .. } => inserts_at_one_place(src, out),
        Edit::RemoveStatement { .. } => replaces_span(src, out, Seq::empty()),
        Edit::AddId { .. } => inserts_at_one_place(src, out),
        Edit::RemoveId { .. } => replaces_span(src, out, Seq::empty()),
        Edit::Append { .. } => inserts_at_one_place(src, out),
        Edit::CreateFile { text } => out == latin1_bytes(text@),
    }
}

/// Applies one [`Edit`] to `src`, returning the new file bytes. Pure: no I/O.
pub fn apply(src: &[u8], edit: &Edit) -> (r: Result<Vec<u8>, String>)
    ensures
        same_result(r, apply_spec(src@, *edit)),
        r matches Ok(v) ==> surgical(src@, *edit, v@),
{
    let toks = tokenize(src);
    match edit {
        Edit::SetScalar { path, value, quoted } => {
            let pb = path_bytes(path.as_slice());
            set_scalar(src, &toks, &pb, value.as_str(), *quoted)
        },
        Edit::SetBlock { path, value } => {
            let pb = path_bytes(path.as_slice());
            set_block_value(src, &toks, &pb, value.as_str())
        },
        Edit::InsertStatement { block_path, statement } => {
            let pb = path_bytes(block_path.as_slice());
            insert_into_block(src, &toks, &pb, statement.as_str())
        },
        Edit::InsertDatedBlock { date, statement } => insert_dated_block(src, &toks, date.as_str(), statement.as_str()),
        Edit::RemoveStatement { block_path, key, value } => {
            let pb = path_bytes(block_path.as_slice());
            let v: Option<&[u8]> = match value {
                Some(v) => Some(v.as_str().as_bytes()),
                None => None,
            };
            remove_statement(src, &toks, &pb, key.as_str().as_bytes(), v)
        },
        Edit::AddId { list_path, id } => {
            let pb = path_bytes(list_path.as_slice());
            insert_into_block(src, &toks, &pb, id.as_str())
        },
        Edit::RemoveId { list_path, id } => {
            let pb = path_bytes(list_path.as_slice());
            remove_id(src, &toks, &pb, id.as_str().as_bytes())
        },
        Edit::Append { text } => append_text(src, text.as_str()),
        Edit::CreateFile { text } => encode_latin1(text.as_str()),
    }
}

/// Applies `edits` in order, stopping at the first error.
pub open spec fn apply_all_spec(src: Seq<u8>, edits: Seq<Edit>) -> Result<Seq<u8>, Seq<char>>
    decreases edits.len(),
{
    if edits.len() == 0 {
        Ok(src)
    } else {
        match apply_all_spec(src, edits.drop_last()) {
            Err(m) => Err(m),
            Ok(b) => apply_spec(b, edits.last()),
        }
    }
}

/// Applies a sequence of [`Edit`]s to `src` in order.
pub fn apply_all(src: &[u8], edits: &[Edit]) -> (r: Result<Vec<u8>, String>)
    ensures
        same_result(r, apply_all_spec(src@, edits@)),
{
    let mut bytes: Vec<u8> = Vec::new();
    bytes.extend_from_slice(src);
    assert(bytes@ =~= src@);
    let mut i: usize = 0;
    while i < edits.len()
        invariant
            i <= edits@.len(),
            apply_all_spec(src@, edits@.subrange(0, i as int)) == Ok::<Seq<u8>, Seq<char>>(bytes@),
        decreases edits@.len() - i,
    {
        assert(edits@.subrange(0, i + 1).drop_last() =~= edits@.subrange(0, i as int));
        let r = apply(bytes.as_slice(), &edits[i]);
        match r {
            Ok(b) => bytes = b,
            Err(m) => {
                assert(apply_all_spec(src@, edits@.subrange(0, i + 1)) == Err::<Seq<u8>, Seq<char>>(m@));
                assert(apply_all_spec(src@, edits@) == Err::<Seq<u8>, Seq<char>>(m@)) by {
                    lemma_apply_all_err(src@, edits@, i as int + 1, m@);
                }
                return Err(m);
            },
        }
        i = i + 1;
    }
    assert(edits@.subrange(0, edits@.len() as int) =~= edits@);
    Ok(bytes)
}

proof fn lemma_apply_all_err(src: Seq<u8>, edits: Seq<Edit>, k: int, m: Seq<char>)
    requires
        0 <= k <= edits.len(),
        apply_all_spec(src, edits.subrange(0, k)) == Err::<Seq<u8>, Seq<char>>(m),
    ensures
        apply_all_spec(src, edits) == Err::<Seq<u8>, Seq<char>>(m),
    decreases edits.len() - k,
{
    if k < edits.len() {
        assert(edits.subrange(0, k + 1).drop_last() =~= edits.subrange(0, k));
        lemma_apply_all_err(src, edits, k + 1, m);
    } else {
        assert(edits.subrange(0, k) =~= edits);
    }
}

} // verus!
