//! The byte-offset tokenizer for Clausewitz script shared by the parser and
//! the edit toolkit. Every token carries its byte offset(s), so edits can
//! splice precisely and braces can be located for block insert/delete.
//! `#` comments produce no tokens.

use vstd::prelude::*;
use crate::text::{is_ws, is_delim, is_ws_byte, is_delim_byte};

verus! {

#[derive(Clone, Copy)]
pub enum Tok {
    /// `{` at this byte offset.
    Open(usize),
    /// `}` at this byte offset.
    Close(usize),
    /// `=` at this byte offset.
    Eq(usize),
    /// Symbol or quoted string; the span covers the quotes if present.
    Sym(usize, usize),
}

/// First index at or after `i` holding a line feed, else the length.
pub open spec fn line_end_from(src: Seq<u8>, i: int) -> int
    decreases src.len() - i,
{
    if i >= src.len() || src[i] == 10 {
        i
    } else {
        line_end_from(src, i + 1)
    }
}

/// First index at or after `i` holding a double quote, else the length.
pub open spec fn quote_from(src: Seq<u8>, i: int) -> int
    decreases src.len() - i,
{
    if i >= src.len() || src[i] == 34 {
        i
    } else {
        quote_from(src, i + 1)
    }
}

/// First index at or after `i` holding whitespace or a delimiter, else the length.
pub open spec fn sym_end_from(src: Seq<u8>, i: int) -> int
    decreases src.len() - i,
{
    if i >= src.len() || is_ws(src[i]) || is_delim(src[i]) {
        i
    } else {
        sym_end_from(src, i + 1)
    }
}

pub proof fn lemma_line_end(src: Seq<u8>, i: int)
    ensures
        line_end_from(src, i) >= i,
        i <= src.len() ==> line_end_from(src, i) <= src.len(),
    decreases src.len() - i,
{
    if !(i >= src.len() || src[i] == 10) {
        lemma_line_end(src, i + 1);
    }
}

pub proof fn lemma_quote(src: Seq<u8>, i: int)
    ensures
        quote_from(src, i) >= i,
        i <= src.len() ==> quote_from(src, i) <= src.len(),
        0 <= i ==> forall|j: int| i <= j < quote_from(src, i) ==> src[j] != 34,
        i <= quote_from(src, i) < src.len() ==> src[quote_from(src, i)] == 34,
    decreases src.len() - i,
{
    if !(i >= src.len() || src[i] == 34) {
        lemma_quote(src, i + 1);
    }
}

pub proof fn lemma_sym_end(src: Seq<u8>, i: int)
    ensures
        sym_end_from(src, i) >= i,
        i <= src.len() ==> sym_end_from(src, i) <= src.len(),
    decreases src.len() - i,
{
    if !(i >= src.len() || is_ws(src[i]) || is_delim(src[i])) {
        lemma_sym_end(src, i + 1);
    }
}

/// End of the quoted token opened at `i`: one past the closing quote, or the
/// end of the input when the quote is never closed.
pub open spec fn quoted_end(src: Seq<u8>, i: int) -> int {
    let q = quote_from(src, i + 1);
    if q < src.len() {
        q + 1
    } else {
        src.len() as int
    }
}

/// The tokens of `src` from byte `i` on.
pub open spec fn tokens_from(src: Seq<u8>, i: int) -> Seq<Tok>
    decreases src.len() - i,
{
    if i < 0 || i >= src.len() {
        Seq::empty()
    } else {
        let b = src[i];
        if b == 35 {
            proof {
                lemma_line_end(src, i + 1);
            }
            tokens_from(src, line_end_from(src, i + 1))
        } else if b == 123 {
            seq![Tok::Open(i as usize)] + tokens_from(src, i + 1)
        } else if b == 125 {
            seq![Tok::Close(i as usize)] + tokens_from(src, i + 1)
        } else if b == 61 {
            seq![Tok::Eq(i as usize)] + tokens_from(src, i + 1)
        } else if b == 34 {
            proof {
                lemma_quote(src, i + 1);
            }
            let e = quoted_end(src, i);
            seq![Tok::Sym(i as usize, e as usize)] + tokens_from(src, e)
        } else if is_ws(b) {
            tokens_from(src, i + 1)
        } else {
            proof {
                lemma_sym_end(src, i + 1);
            }
            let e = sym_end_from(src, i + 1);
            seq![Tok::Sym(i as usize, e as usize)] + tokens_from(src, e)
        }
    }
}

/// The token stream of a whole file.
pub open spec fn tokens(src: Seq<u8>) -> Seq<Tok> {
    tokens_from(src, 0)
}

/// First byte of a token.
pub open spec fn tok_start(t: Tok) -> int {
    match t {
        Tok::Open(b) => b as int,
        Tok::Close(b) => b as int,
        Tok::Eq(b) => b as int,
        Tok::Sym(s, _) => s as int,
    }
}

/// One past the last byte of a token.
pub open spec fn tok_end(t: Tok) -> int {
    match t {
        Tok::Open(b) => b + 1,
        Tok::Close(b) => b + 1,
        Tok::Eq(b) => b + 1,
        Tok::Sym(_, e) => e as int,
    }
}

/// A token read from `src`: in bounds, and a brace/equals token sits on its byte.
pub open spec fn tok_ok(src: Seq<u8>, t: Tok) -> bool {
    &&& 0 <= tok_start(t) < tok_end(t) <= src.len()
    &&& (t matches Tok::Open(b) ==> src[b as int] == 123)
    &&& (t matches Tok::Close(b) ==> src[b as int] == 125)
    &&& (t matches Tok::Eq(b) ==> src[b as int] == 61)
}

/// The well-formedness of a token stream read from `src`: every token is in
/// bounds, and tokens come in file order without overlapping.
pub open spec fn toks_wf(src: Seq<u8>, toks: Seq<Tok>) -> bool {
    &&& forall|k: int| 0 <= k < toks.len() ==> tok_ok(src, #[trigger] toks[k])
    &&& forall|j: int, k: int|
        0 <= j < k < toks.len() ==> tok_end(#[trigger] toks[j]) <= tok_start(#[trigger] toks[k])
}

proof fn lemma_tokens_from_wf(src: Seq<u8>, i: int)
    requires
        0 <= i,
        src.len() <= usize::MAX,
    ensures
        toks_wf(src, tokens_from(src, i)),
        forall|k: int|
            0 <= k < tokens_from(src, i).len() ==> tok_start(#[trigger] tokens_from(src, i)[k]) >= i,
    decreases src.len() - i,
{
    if i >= src.len() {
        return;
    }
    let b = src[i];
    let t = tokens_from(src, i);
    if b == 35 {
        lemma_line_end(src, i + 1);
        lemma_tokens_from_wf(src, line_end_from(src, i + 1));
    } else if is_ws(b) && b != 123 && b != 125 && b != 61 && b != 34 {
        lemma_tokens_from_wf(src, i + 1);
    } else {
        let e: int = if b == 123 || b == 125 || b == 61 {
            i + 1
        } else if b == 34 {
            lemma_quote(src, i + 1);
            quoted_end(src, i)
        } else {
            lemma_sym_end(src, i + 1);
            sym_end_from(src, i + 1)
        };
        lemma_tokens_from_wf(src, e);
        let rest = tokens_from(src, e);
        assert(t == seq![t[0]] + rest);
        assert(tok_end(t[0]) == e);
        assert forall|k: int| 0 <= k < t.len() implies tok_ok(src, #[trigger] t[k]) by {
            if k > 0 {
                assert(t[k] == rest[k - 1]);
            }
        }
        assert forall|j: int, k: int| 0 <= j < k < t.len() implies tok_end(#[trigger] t[j])
            <= tok_start(#[trigger] t[k]) by {
            assert(t[k] == rest[k - 1]);
            if j > 0 {
                assert(t[j] == rest[j - 1]);
            }
        }
        assert forall|k: int| 0 <= k < t.len() implies tok_start(#[trigger] t[k]) >= i by {
            if k > 0 {
                assert(t[k] == rest[k - 1]);
            }
        }
    }
}

pub proof fn lemma_tokens_wf(src: Seq<u8>)
    requires
        src.len() <= usize::MAX,
    ensures
        toks_wf(src, tokens(src)),
{
    lemma_tokens_from_wf(src, 0);
}

proof fn lemma_tok_end_grows(src: Seq<u8>, toks: Seq<Tok>, k: int)
    requires
        toks_wf(src, toks),
        0 <= k < toks.len(),
    ensures
        tok_end(toks[k]) >= k + 1,
    decreases k,
{
    assert(tok_ok(src, toks[k]));
    if k > 0 {
        lemma_tok_end_grows(src, toks, k - 1);
        assert(tok_end(toks[k - 1]) <= tok_start(toks[k]));
    }
}

/// A well-formed token stream has no more tokens than the source has bytes.
pub proof fn lemma_tokens_len(src: Seq<u8>, toks: Seq<Tok>)
    requires
        toks_wf(src, toks),
    ensures
        toks.len() <= src.len(),
{
    if toks.len() > 0 {
        let last = toks.len() - 1;
        lemma_tok_end_grows(src, toks, last);
        assert(tok_ok(src, toks[last]));
    }
}

/// Splits `src` into tokens (comments and whitespace dropped).
pub fn tokenize(src: &[u8]) -> (out: Vec<Tok>)
    ensures
        out@ == tokens(src@),
        toks_wf(src@, out@),
{
    let mut out: Vec<Tok> = Vec::new();
    let mut i: usize = 0;
    let n = src.len();
    while i < n
        invariant
            n == src@.len(),
            i <= n,
            out@ + tokens_from(src@, i as int) == tokens(src@),
        decreases n - i,
    {
        let b = src[i];
        let ghost old_i = i as int;
        let ghost old_out = out@;
        if b == 35 {
            let mut j = i + 1;
            while j < n && src[j] != 10
                invariant
                    n == src@.len(),
                    i < j <= n,
                    line_end_from(src@, j as int) == line_end_from(src@, i + 1),
                decreases n - j,
            {
                j = j + 1;
            }
            i = j;
        } else if b == 123 {
            out.push(Tok::Open(i));
            i = i + 1;
        } else if b == 125 {
            out.push(Tok::Close(i));
            i = i + 1;
        } else if b == 61 {
            out.push(Tok::Eq(i));
            i = i + 1;
        } else if b == 34 {
            let start = i;
            let mut j = i + 1;
            while j < n && src[j] != 34
                invariant
                    n == src@.len(),
                    i < j <= n,
                    quote_from(src@, j as int) == quote_from(src@, i + 1),
                decreases n - j,
            {
                j = j + 1;
            }
            let e = if j < n { j + 1 } else { n };
            out.push(Tok::Sym(start, e));
            i = e;
        } else if is_ws_byte(b) {
            i = i + 1;
        } else {
            let start = i;
            let mut j = i + 1;
            while j < n && !is_ws_byte(src[j]) && !is_delim_byte(src[j])
                invariant
                    n == src@.len(),
                    i < j <= n,
                    sym_end_from(src@, j as int) == sym_end_from(src@, i + 1),
                decreases n - j,
            {
                j = j + 1;
            }
            out.push(Tok::Sym(start, j));
            i = j;
        }
        proof {
            assert(old_out + tokens_from(src@, old_i) == tokens(src@));
            if b != 35 && !(is_ws(b) && b != 123 && b != 125 && b != 61 && b != 34) {
                assert(tokens_from(src@, old_i) == seq![out@.last()] + tokens_from(src@, i as int));
                assert(out@ == old_out.push(out@.last()));
                assert(out@ + tokens_from(src@, i as int) =~= old_out + tokens_from(src@, old_i));
            }
        }
    }
    proof {
        assert(out@ =~= tokens(src@));
        lemma_tokens_wf(src@);
    }
    out
}

} // verus!
