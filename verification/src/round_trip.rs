//! Round-trip laws of the edit toolkit: appending a top-level block and then
//! removing it by its key gives the file back byte for byte.
//!
//! The proofs rest on two facts about the lexer: a file that ends at a token
//! boundary (outside any string, comment or symbol) tokenizes the same when
//! more text follows it, and text placed after a prefix tokenizes as it does
//! alone, shifted by the prefix's length.

use vstd::prelude::*;
use crate::lexer::{
    Tok, tokens, tokens_from, line_end_from, quote_from, sym_end_from, quoted_end, lemma_line_end, lemma_quote,
    lemma_sym_end,
};
use crate::text::{is_ws, eq_ignore_case};
use crate::navigate::{
    Child, ValLoc, Located, skip_from, skip_block, lemma_skip_block, children_from, close_byte, child_ok, lemma_children_ok,
    split_occ, occ_index, nth_from, locate, locate_from, top_level,
};
use crate::lexer::{toks_wf, tok_ok, lemma_tokens_wf, lemma_tokens_len};
use crate::mod_writer::{
    is_latin1, latin1_bytes, append_spec, append_bytes, remove_statement_spec, is_statement, statement_named,
    delete_span_spec, line_start_of, owns_line, splice, lemma_no_hash, lemma_nth_first,
};

verus! {

// ---------------------------------------------------------------------------
// The lexer on concatenated text.
// ---------------------------------------------------------------------------

/// Tokenizing `src` from `i` finishes inside `src`: every string closes, every
/// comment ends with a line feed, and every symbol is followed by a space or a
/// delimiter before the end.
pub open spec fn ends_clean_from(src: Seq<u8>, i: int) -> bool
    decreases src.len() - i,
{
    if i < 0 || i >= src.len() {
        true
    } else {
        let b = src[i];
        if b == 35 {
            proof {
                lemma_line_end(src, i + 1);
            }
            line_end_from(src, i + 1) < src.len() && ends_clean_from(src, line_end_from(src, i + 1))
        } else if b == 123 || b == 125 || b == 61 || is_ws(b) {
            ends_clean_from(src, i + 1)
        } else if b == 34 {
            proof {
                lemma_quote(src, i + 1);
            }
            quote_from(src, i + 1) < src.len() && ends_clean_from(src, quoted_end(src, i))
        } else {
            proof {
                lemma_sym_end(src, i + 1);
            }
            sym_end_from(src, i + 1) < src.len() && ends_clean_from(src, sym_end_from(src, i + 1))
        }
    }
}

/// A token moved `d` bytes later.
pub open spec fn shift_tok(t: Tok, d: int) -> Tok {
    match t {
        Tok::Open(p) => Tok::Open((p + d) as usize),
        Tok::Close(p) => Tok::Close((p + d) as usize),
        Tok::Eq(p) => Tok::Eq((p + d) as usize),
        Tok::Sym(s, e) => Tok::Sym((s + d) as usize, (e + d) as usize),
    }
}

/// Tokens moved `d` bytes later.
pub open spec fn shift_toks(s: Seq<Tok>, d: int) -> Seq<Tok> {
    s.map_values(|t: Tok| shift_tok(t, d))
}

proof fn lemma_shift_cons(t: Tok, r: Seq<Tok>, d: int)
    ensures
        shift_toks(seq![t] + r, d) == seq![shift_tok(t, d)] + shift_toks(r, d),
{
    assert(shift_toks(seq![t] + r, d) =~= seq![shift_tok(t, d)] + shift_toks(r, d));
}

proof fn lemma_line_end_prefix(a: Seq<u8>, b: Seq<u8>, j: int)
    requires
        0 <= j,
        line_end_from(a, j) < a.len(),
    ensures
        line_end_from(a + b, j) == line_end_from(a, j),
    decreases a.len() - j,
{
    assert((a + b)[j] == a[j]);
    if a[j] != 10 {
        lemma_line_end_prefix(a, b, j + 1);
    }
}

proof fn lemma_quote_prefix(a: Seq<u8>, b: Seq<u8>, j: int)
    requires
        0 <= j,
        quote_from(a, j) < a.len(),
    ensures
        quote_from(a + b, j) == quote_from(a, j),
    decreases a.len() - j,
{
    assert((a + b)[j] == a[j]);
    if a[j] != 34 {
        lemma_quote_prefix(a, b, j + 1);
    }
}

proof fn lemma_sym_end_prefix(a: Seq<u8>, b: Seq<u8>, j: int)
    requires
        0 <= j,
        sym_end_from(a, j) < a.len(),
    ensures
        sym_end_from(a + b, j) == sym_end_from(a, j),
    decreases a.len() - j,
{
    assert((a + b)[j] == a[j]);
    if !(is_ws(a[j]) || crate::text::is_delim(a[j])) {
        lemma_sym_end_prefix(a, b, j + 1);
    }
}

proof fn lemma_line_end_suffix(a: Seq<u8>, b: Seq<u8>, j: int)
    requires
        0 <= j,
    ensures
        line_end_from(a + b, a.len() + j) == a.len() + line_end_from(b, j),
    decreases b.len() - j,
{
    if j < b.len() {
        assert((a + b)[a.len() + j] == b[j]);
        if b[j] != 10 {
            lemma_line_end_suffix(a, b, j + 1);
        }
    }
}

proof fn lemma_quote_suffix(a: Seq<u8>, b: Seq<u8>, j: int)
    requires
        0 <= j,
    ensures
        quote_from(a + b, a.len() + j) == a.len() + quote_from(b, j),
    decreases b.len() - j,
{
    if j < b.len() {
        assert((a + b)[a.len() + j] == b[j]);
        if b[j] != 34 {
            lemma_quote_suffix(a, b, j + 1);
        }
    }
}

proof fn lemma_sym_end_suffix(a: Seq<u8>, b: Seq<u8>, j: int)
    requires
        0 <= j,
    ensures
        sym_end_from(a + b, a.len() + j) == a.len() + sym_end_from(b, j),
    decreases b.len() - j,
{
    if j < b.len() {
        assert((a + b)[a.len() + j] == b[j]);
        if !(is_ws(b[j]) || crate::text::is_delim(b[j])) {
            lemma_sym_end_suffix(a, b, j + 1);
        }
    }
}

/// Text after a prefix tokenizes as it does alone, shifted by the prefix.
pub proof fn lemma_tokens_suffix(a: Seq<u8>, b: Seq<u8>, i: int)
    requires
        0 <= i,
        a.len() + b.len() <= usize::MAX,
    ensures
        tokens_from(a + b, a.len() + i) == shift_toks(tokens_from(b, i), a.len() as int),
    decreases b.len() - i,
{
    let s = a + b;
    let n = a.len() as int;
    if i < b.len() {
        assert(s[n + i] == b[i]);
        let c = b[i];
        if c == 35 {
            lemma_line_end(b, i + 1);
            lemma_line_end_suffix(a, b, i + 1);
            lemma_tokens_suffix(a, b, line_end_from(b, i + 1));
        } else if c == 123 || c == 125 || c == 61 {
            lemma_tokens_suffix(a, b, i + 1);
            let t = if c == 123 {
                Tok::Open(i as usize)
            } else if c == 125 {
                Tok::Close(i as usize)
            } else {
                Tok::Eq(i as usize)
            };
            lemma_shift_cons(t, tokens_from(b, i + 1), n);
        } else if c == 34 {
            lemma_quote(b, i + 1);
            lemma_quote_suffix(a, b, i + 1);
            let e = quoted_end(b, i);
            assert(quoted_end(s, n + i) == n + e);
            lemma_tokens_suffix(a, b, e);
            lemma_shift_cons(Tok::Sym(i as usize, e as usize), tokens_from(b, e), n);
        } else if is_ws(c) {
            lemma_tokens_suffix(a, b, i + 1);
        } else {
            lemma_sym_end(b, i + 1);
            lemma_sym_end_suffix(a, b, i + 1);
            let e = sym_end_from(b, i + 1);
            lemma_tokens_suffix(a, b, e);
            lemma_shift_cons(Tok::Sym(i as usize, e as usize), tokens_from(b, e), n);
        }
    } else {
        assert(shift_toks(tokens_from(b, i), n) =~= Seq::<Tok>::empty());
    }
}

/// A prefix that ends at a token boundary tokenizes the same with more text
/// after it.
pub proof fn lemma_tokens_prefix(a: Seq<u8>, b: Seq<u8>, i: int)
    requires
        0 <= i <= a.len(),
        ends_clean_from(a, i),
    ensures
        tokens_from(a + b, i) == tokens_from(a, i) + tokens_from(a + b, a.len() as int),
    decreases a.len() - i,
{
    let s = a + b;
    let rest = tokens_from(s, a.len() as int);
    if i < a.len() {
        assert(s[i] == a[i]);
        let c = a[i];
        if c == 35 {
            lemma_line_end(a, i + 1);
            lemma_line_end_prefix(a, b, i + 1);
            lemma_tokens_prefix(a, b, line_end_from(a, i + 1));
        } else if c == 123 || c == 125 || c == 61 {
            lemma_tokens_prefix(a, b, i + 1);
            let t = if c == 123 {
                Tok::Open(i as usize)
            } else if c == 125 {
                Tok::Close(i as usize)
            } else {
                Tok::Eq(i as usize)
            };
            assert(seq![t] + (tokens_from(a, i + 1) + rest) =~= (seq![t] + tokens_from(a, i + 1)) + rest);
        } else if is_ws(c) {
            lemma_tokens_prefix(a, b, i + 1);
        } else if c == 34 {
            lemma_quote(a, i + 1);
            lemma_quote_prefix(a, b, i + 1);
            let e = quoted_end(a, i);
            assert(quoted_end(s, i) == e);
            lemma_tokens_prefix(a, b, e);
            let t = Tok::Sym(i as usize, e as usize);
            assert(seq![t] + (tokens_from(a, e) + rest) =~= (seq![t] + tokens_from(a, e)) + rest);
        } else {
            lemma_sym_end(a, i + 1);
            lemma_sym_end_prefix(a, b, i + 1);
            let e = sym_end_from(a, i + 1);
            lemma_tokens_prefix(a, b, e);
            let t = Tok::Sym(i as usize, e as usize);
            assert(seq![t] + (tokens_from(a, e) + rest) =~= (seq![t] + tokens_from(a, e)) + rest);
        }
    } else {
        assert(tokens_from(a, i) =~= Seq::<Tok>::empty());
        assert(Seq::<Tok>::empty() + rest =~= rest);
    }
}

// ---------------------------------------------------------------------------
// Top-level statements of concatenated token streams.
// ---------------------------------------------------------------------------

/// The nesting open at depth `depth` when scanning from token `i` closes
/// within `toks`.
pub open spec fn closes_from(toks: Seq<Tok>, i: int, depth: int) -> bool
    decreases toks.len() - i,
{
    if i < 0 || i >= toks.len() {
        false
    } else {
        match toks[i] {
            Tok::Open(_) => closes_from(toks, i + 1, depth + 1),
            Tok::Close(_) => if depth - 1 == 0 {
                true
            } else {
                closes_from(toks, i + 1, depth - 1)
            },
            _ => closes_from(toks, i + 1, depth),
        }
    }
}

/// Reading the top-level statements of `toks` from `i` never looks past its
/// end: every block closes, and no `key =` is left waiting for its value.
pub open spec fn stable_from(toks: Seq<Tok>, i: int) -> bool
    decreases toks.len() - i,
{
    if i < 0 || i >= toks.len() {
        true
    } else {
        match toks[i] {
            Tok::Sym(_, _) => if i + 1 < toks.len() && toks[i + 1] is Eq {
                if i + 2 >= toks.len() {
                    false
                } else {
                    match toks[i + 2] {
                        Tok::Open(_) => {
                            proof {
                                lemma_skip_block(toks, i + 2);
                            }
                            closes_from(toks, i + 3, 1) && stable_from(toks, skip_block(toks, i + 2))
                        },
                        Tok::Sym(_, _) => stable_from(toks, i + 3),
                        _ => stable_from(toks, i + 1),
                    }
                }
            } else {
                stable_from(toks, i + 1)
            },
            Tok::Open(_) => {
                proof {
                    lemma_skip_block(toks, i);
                }
                closes_from(toks, i + 1, 1) && stable_from(toks, skip_block(toks, i))
            },
            _ => stable_from(toks, i + 1),
        }
    }
}

proof fn lemma_skip_prefix(ts: Seq<Tok>, u: Seq<Tok>, i: int, depth: int)
    requires
        0 <= i,
        closes_from(ts, i, depth),
    ensures
        skip_from(ts + u, i, depth) == skip_from(ts, i, depth),
        skip_from(ts, i, depth) <= ts.len(),
    decreases ts.len() - i,
{
    assert((ts + u)[i] == ts[i]);
    match ts[i] {
        Tok::Open(_) => lemma_skip_prefix(ts, u, i + 1, depth + 1),
        Tok::Close(_) => if depth - 1 != 0 {
            lemma_skip_prefix(ts, u, i + 1, depth - 1);
        },
        _ => lemma_skip_prefix(ts, u, i + 1, depth),
    }
}

proof fn lemma_skip_suffix(ts: Seq<Tok>, tb: Seq<Tok>, d: int, i: int, depth: int)
    requires
        0 <= i,
    ensures
        skip_from(ts + shift_toks(tb, d), ts.len() + i, depth) == ts.len() + skip_from(tb, i, depth),
    decreases tb.len() - i,
{
    let u = shift_toks(tb, d);
    if i < tb.len() {
        assert((ts + u)[ts.len() + i] == shift_tok(tb[i], d));
        match tb[i] {
            Tok::Open(_) => lemma_skip_suffix(ts, tb, d, i + 1, depth + 1),
            Tok::Close(_) => if depth - 1 != 0 {
                lemma_skip_suffix(ts, tb, d, i + 1, depth - 1);
            },
            _ => lemma_skip_suffix(ts, tb, d, i + 1, depth),
        }
    }
}

proof fn lemma_children_prefix(ts: Seq<Tok>, u: Seq<Tok>, i: int)
    requires
        0 <= i <= ts.len(),
        stable_from(ts, i),
        u.len() == 0 || !(u[0] is Eq),
    ensures
        children_from(ts + u, i, (ts.len() + u.len()) as int) == children_from(ts, i, ts.len() as int) + children_from(
            ts + u,
            ts.len() as int,
            (ts.len() + u.len()) as int,
        ),
    decreases ts.len() - i,
{
    let t = ts + u;
    let ce = (ts.len() + u.len()) as int;
    let rest = children_from(t, ts.len() as int, ce);
    if i == ts.len() {
        assert(children_from(ts, i, ts.len() as int) =~= Seq::<Child>::empty());
        assert(Seq::<Child>::empty() + rest =~= rest);
        return;
    }
    assert(t[i] == ts[i]);
    match ts[i] {
        Tok::Sym(ks, ke) => {
            if i + 1 < ts.len() && ts[i + 1] is Eq {
                assert(t[i + 1] == ts[i + 1]);
                assert(t[i + 2] == ts[i + 2]);
                match ts[i + 2] {
                    Tok::Open(ob) => {
                        lemma_skip_block(ts, i + 2);
                        lemma_skip_prefix(ts, u, i + 3, 1);
                        assert(skip_block(t, i + 2) == skip_from(t, i + 3, 1));
                        assert(skip_block(ts, i + 2) == skip_from(ts, i + 3, 1));
                        let close_idx = skip_block(ts, i + 2) - 1;
                        assert(t[close_idx] == ts[close_idx]);
                        assert(close_byte(t, i + 2, close_idx) == close_byte(ts, i + 2, close_idx));
                        lemma_children_prefix(ts, u, close_idx + 1);
                        let c = children_from(ts, i, ts.len() as int)[0];
                        assert(seq![c] + (children_from(ts, close_idx + 1, ts.len() as int) + rest) =~= (seq![c]
                            + children_from(ts, close_idx + 1, ts.len() as int)) + rest);
                    },
                    Tok::Sym(vs, ve) => {
                        lemma_children_prefix(ts, u, i + 3);
                        let c = children_from(ts, i, ts.len() as int)[0];
                        assert(seq![c] + (children_from(ts, i + 3, ts.len() as int) + rest) =~= (seq![c]
                            + children_from(ts, i + 3, ts.len() as int)) + rest);
                    },
                    _ => {
                        lemma_children_prefix(ts, u, i + 1);
                    },
                }
            } else {
                if i + 1 < ts.len() {
                    assert(t[i + 1] == ts[i + 1]);
                } else if u.len() > 0 {
                    assert(t[i + 1] == u[0]);
                }
                lemma_children_prefix(ts, u, i + 1);
                let c = children_from(ts, i, ts.len() as int)[0];
                assert(seq![c] + (children_from(ts, i + 1, ts.len() as int) + rest) =~= (seq![c] + children_from(
                    ts,
                    i + 1,
                    ts.len() as int,
                )) + rest);
            }
        },
        Tok::Open(ob) => {
            lemma_skip_block(ts, i);
            lemma_skip_prefix(ts, u, i + 1, 1);
            assert(skip_block(t, i) == skip_from(t, i + 1, 1));
            assert(skip_block(ts, i) == skip_from(ts, i + 1, 1));
            let close_idx = skip_block(ts, i) - 1;
            assert(t[close_idx] == ts[close_idx]);
            assert(close_byte(t, i, close_idx) == close_byte(ts, i, close_idx));
            lemma_children_prefix(ts, u, close_idx + 1);
            let c = children_from(ts, i, ts.len() as int)[0];
            assert(seq![c] + (children_from(ts, close_idx + 1, ts.len() as int) + rest) =~= (seq![c] + children_from(
                ts,
                close_idx + 1,
                ts.len() as int,
            )) + rest);
        },
        _ => {
            lemma_children_prefix(ts, u, i + 1);
        },
    }
}

// ---------------------------------------------------------------------------
// Append, then remove.
// ---------------------------------------------------------------------------

/// The bytes `enc`, followed by the line feed that appending adds, are one
/// top-level statement `key = { … }` keyed by the bytes `key`, whose braces
/// balance and which ends with its closing brace.
pub open spec fn is_block_statement(enc: Seq<u8>, key: Seq<u8>) -> bool {
    let t = tokens(enc.push(10));
    &&& 0 < key.len() < enc.len()
    &&& enc.last() == 125
    &&& enc.subrange(0, key.len() as int) == key
    &&& t.len() >= 4
    &&& t[0] == Tok::Sym(0, key.len() as usize)
    &&& t[1] is Eq
    &&& t[2] is Open
    &&& skip_block(t, 2) == t.len()
    &&& t[t.len() - 1] == Tok::Close((enc.len() - 1) as usize)
}

/// The top-level statements of a file.
pub open spec fn top_children(src: Seq<u8>) -> Seq<Child> {
    children_from(tokens(src), 0, tokens(src).len() as int)
}

/// Creating a top-level block and then deleting it by its key restores the
/// file: appending `text`, one statement `key = { … }`, to a file that ends
/// a line at a token boundary, whose top-level statements all close and none
/// of which is keyed `key` (ignoring ASCII case), and then removing the
/// top-level statement `key` gives back the file byte for byte.
///
/// The premises on the file are what "well-formed" means here, and each
/// leaves out inputs on which the law fails: `ends_clean_from` says every
/// string is closed and every comment ends with a line feed (an open string
/// or comment would swallow the appended text); `stable_from` says every
/// top-level block closes and no `k =` waits for a value (an open block
/// would take the statement in, and `a =` would read the new key as its value).
#[verifier::spinoff_prover]
#[verifier::rlimit(40)]
pub proof fn lemma_append_then_remove(src: Seq<u8>, text: Seq<char>, key: Seq<u8>)
    requires
        src.len() == 0 || src.last() == 10,
        ends_clean_from(src, 0),
        stable_from(tokens(src), 0),
        forall|k: int| 0 <= k < top_children(src).len() ==> !is_statement(src, #[trigger] top_children(src)[k], key, None),
        forall|i: int| 0 <= i < key.len() ==> #[trigger] key[i] != 35,
        is_latin1(text),
        is_block_statement(latin1_bytes(text), key),
        src.len() + text.len() + 1 <= usize::MAX,
    ensures
        append_spec(src, text) == Ok::<Seq<u8>, Seq<char>>(src + latin1_bytes(text).push(10)),
        remove_statement_spec(src + latin1_bytes(text).push(10), Seq::empty(), key, None) == Ok::<Seq<u8>, Seq<char>>(src),
{
    let enc = latin1_bytes(text);
    let b = enc.push(10);
    let out = src + b;
    let n = src.len() as int;
    assert(append_bytes(src, enc) =~= out);
    // Tokens of the new file.
    let ts = tokens(src);
    let tb = tokens(b);
    lemma_tokens_prefix(src, b, 0);
    lemma_tokens_suffix(src, b, 0);
    let u = shift_toks(tb, n);
    let t = ts + u;
    assert(tokens(out) == t);
    lemma_tokens_wf(src);
    lemma_tokens_len(src, ts);
    lemma_tokens_wf(b);
    lemma_tokens_len(b, tb);
    assert(tok_ok(b, tb[0]));
    // Top-level children of the new file.
    assert(u[0] == shift_tok(tb[0], n));
    lemma_children_prefix(ts, u, 0);
    let ka = children_from(ts, 0, ts.len() as int);
    let m = ts.len() as int;
    let ce = t.len() as int;
    assert(t[m] == Tok::Sym(n as usize, (n + key.len()) as usize));
    assert(t[m + 1] == shift_tok(tb[1], n));
    assert(t[m + 2] == shift_tok(tb[2], n));
    assert(t[m + 1] is Eq);
    assert(t[m + 2] is Open);
    lemma_skip_suffix(ts, tb, n, 2, 0);
    assert(skip_block(t, m + 2) == m + tb.len());
    lemma_skip_block(t, m + 2);
    let close_idx = ce - 1;
    assert(t[close_idx] == shift_tok(tb[tb.len() - 1], n));
    assert(close_byte(t, m + 2, close_idx) == n + enc.len() - 1);
    let c = children_from(t, m, ce)[0];
    assert(c.key == Some(((n as usize), ((n + key.len()) as usize))));
    assert(c.stmt_start == n);
    assert(c.stmt_end == n + enc.len());
    let kids = children_from(t, 0, ce);
    assert(kids == ka + children_from(t, m, ce));
    let j = ka.len() as int;
    assert(kids[j] == c);
    // The removal finds it.
    assert(locate(out, t, Seq::empty()) == Some(top_level(t)));
    lemma_no_hash(key, key.len() as int);
    assert(split_occ(key) == (key, None::<nat>));
    lemma_children_ok(src, ts, 0, m);
    assert forall|k: int| 0 <= k < j implies !statement_named(out, key, None)(#[trigger] kids[k]) by {
        assert(kids[k] == ka[k]);
        assert(ka[k] == top_children(src)[k]);
        assert(child_ok(src, ts, ka[k]));
        assert(!is_statement(src, ka[k], key, None));
        if ka[k].key is Some {
            let (ks, ke) = ka[k].key->0;
            assert(out.subrange(ks as int, ke as int) =~= src.subrange(ks as int, ke as int));
        }
    }
    assert(out.subrange(n, n + key.len()) =~= key);
    assert(statement_named(out, key, None)(kids[j]));
    lemma_nth_first(kids, statement_named(out, key, None), 0, j);
    // The deletion takes exactly the appended bytes.
    assert(line_start_of(out, n) == n);
    assert(owns_line(out, n, n));
    assert(out[n + enc.len()] == 10);
    assert(line_end_from(out, n + enc.len()) == n + enc.len());
    assert(splice(out, n, out.len() as int, Seq::empty()) =~= src);
}

} // verus!
