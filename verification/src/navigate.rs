//! Block/statement navigation over the token stream: matching braces, the
//! direct children of a block, occurrence-qualified path segments (`key#n`),
//! and resolving a path of block keys to the block it names.

use vstd::prelude::*;
use crate::lexer::{Tok, toks_wf, tok_ok, tok_start, tok_end};
use crate::text::{eq_ignore_case, bytes_eq_ignore_case, parse_unsigned, parse_unsigned_bytes};

verus! {

// ---------------------------------------------------------------------------
// Matching braces.
// ---------------------------------------------------------------------------

/// Token index just past the brace that closes the nesting open at depth
/// `depth` when scanning from token `i` (the token count when it never closes).
pub open spec fn skip_from(toks: Seq<Tok>, i: int, depth: int) -> int
    decreases toks.len() - i,
{
    if i < 0 || i >= toks.len() {
        toks.len() as int
    } else {
        match toks[i] {
            Tok::Open(_) => skip_from(toks, i + 1, depth + 1),
            Tok::Close(_) => if depth - 1 == 0 {
                i + 1
            } else {
                skip_from(toks, i + 1, depth - 1)
            },
            _ => skip_from(toks, i + 1, depth),
        }
    }
}

/// Token index just past the block opened at `open_idx`.
pub open spec fn skip_block(toks: Seq<Tok>, open_idx: int) -> int {
    skip_from(toks, open_idx, 0)
}

pub proof fn lemma_skip_from(toks: Seq<Tok>, i: int, depth: int)
    requires
        0 <= i,
    ensures
        i < toks.len() ==> i < skip_from(toks, i, depth),
        skip_from(toks, i, depth) <= toks.len() || i > toks.len(),
    decreases toks.len() - i,
{
    if i < toks.len() {
        lemma_skip_from(toks, i + 1, depth + 1);
        lemma_skip_from(toks, i + 1, depth - 1);
        lemma_skip_from(toks, i + 1, depth);
    }
}

pub proof fn lemma_skip_block(toks: Seq<Tok>, open_idx: int)
    requires
        0 <= open_idx < toks.len(),
    ensures
        open_idx < skip_block(toks, open_idx) <= toks.len(),
{
    lemma_skip_from(toks, open_idx, 0);
}

/// Token index just past the block opened at `open_idx`.
pub fn skip_block_exec(toks: &Vec<Tok>, open_idx: usize) -> (r: usize)
    requires
        open_idx < toks@.len(),
        toks@[open_idx as int] is Open,
    ensures
        r == skip_block(toks@, open_idx as int),
        open_idx < r <= toks@.len(),
{
    proof {
        lemma_skip_block(toks@, open_idx as int);
    }
    let mut depth: usize = 0;
    let mut i = open_idx;
    while i < toks.len()
        invariant
            open_idx <= i <= toks@.len(),
            toks@[open_idx as int] is Open,
            (i == open_idx && depth == 0) || (i > open_idx && depth >= 1),
            depth <= i - open_idx,
            skip_from(toks@, i as int, depth as int) == skip_block(toks@, open_idx as int),
        decreases toks@.len() - i,
    {
        match toks[i] {
            Tok::Open(_) => depth = depth + 1,
            Tok::Close(_) => {
                depth = depth - 1;
                if depth == 0 {
                    return i + 1;
                }
            },
            _ => {},
        }
        i = i + 1;
    }
    toks.len()
}

// ---------------------------------------------------------------------------
// Direct children of a block.
// ---------------------------------------------------------------------------

#[derive(Clone, Copy)]
pub enum ValLoc {
    /// Byte span of a scalar value token.
    Scalar(usize, usize),
    /// (open_tok_idx, close_tok_idx) of a `{ ... }` value.
    Block(usize, usize),
}

/// A single direct child (statement) of a block.
#[derive(Clone, Copy)]
pub struct Child {
    /// Byte span of the key token, or `None` for a bare list element.
    pub key: Option<(usize, usize)>,
    pub val: ValLoc,
    /// First byte of the statement (key start, or value start when bare).
    pub stmt_start: usize,
    /// One past the last byte of the statement (scalar end, or `}`+1).
    pub stmt_end: usize,
}

/// The byte of the closing brace of a keyed block child whose value opens at
/// token `ot` and closes at token `ct` (the open brace when it never closes).
pub open spec fn close_byte(toks: Seq<Tok>, ot: int, ct: int) -> int {
    match toks[ct] {
        Tok::Close(b) => b as int,
        _ => toks[ot]->Open_0 as int,
    }
}

/// The direct children of the block whose contents span tokens `[i, ce)`.
/// Nested blocks are not descended; an anonymous `{ … }` is a keyless block
/// child.
pub open spec fn children_from(toks: Seq<Tok>, i: int, ce: int) -> Seq<Child>
    decreases toks.len() - i,
{
    if i < 0 || i >= ce || ce > toks.len() {
        Seq::empty()
    } else {
        match toks[i] {
            Tok::Sym(ks, ke) => {
                if i + 1 < ce && toks[i + 1] is Eq {
                    if i + 2 >= ce {
                        children_from(toks, i + 1, ce)
                    } else {
                        match toks[i + 2] {
                            Tok::Open(ob) => {
                                proof {
                                    lemma_skip_block(toks, i + 2);
                                }
                                let close_idx = skip_block(toks, i + 2) - 1;
                                let cb = close_byte(toks, i + 2, close_idx);
                                seq![
                                    Child {
                                        key: Some((ks, ke)),
                                        val: ValLoc::Block((i + 2) as usize, close_idx as usize),
                                        stmt_start: ks,
                                        stmt_end: (cb + 1) as usize,
                                    },
                                ] + children_from(toks, close_idx + 1, ce)
                            },
                            Tok::Sym(vs, ve) => seq![
                                Child {
                                    key: Some((ks, ke)),
                                    val: ValLoc::Scalar(vs, ve),
                                    stmt_start: ks,
                                    stmt_end: ve,
                                },
                            ] + children_from(toks, i + 3, ce),
                            _ => children_from(toks, i + 1, ce),
                        }
                    }
                } else {
                    seq![
                        Child {
                            key: None,
                            val: ValLoc::Scalar(ks, ke),
                            stmt_start: ks,
                            stmt_end: ke,
                        },
                    ] + children_from(toks, i + 1, ce)
                }
            },
            Tok::Open(ob) => {
                proof {
                    lemma_skip_block(toks, i);
                }
                let close_idx = skip_block(toks, i) - 1;
                let cb = close_byte(toks, i, close_idx);
                seq![
                    Child {
                        key: None,
                        val: ValLoc::Block(i as usize, close_idx as usize),
                        stmt_start: ob,
                        stmt_end: (cb + 1) as usize,
                    },
                ] + children_from(toks, close_idx + 1, ce)
            },
            _ => children_from(toks, i + 1, ce),
        }
    }
}

/// A child read from a well-formed token stream: its spans are in bounds and
/// ordered, and a block value names an open token and a later token.
pub open spec fn child_ok(src: Seq<u8>, toks: Seq<Tok>, c: Child) -> bool {
    &&& c.stmt_start < c.stmt_end <= src.len()
    &&& (c.key matches Some((ks, ke)) ==> ks == c.stmt_start && ks < ke <= src.len())
    &&& (c.val matches ValLoc::Scalar(vs, ve) ==> c.stmt_start <= vs < ve == c.stmt_end)
    &&& (c.val matches ValLoc::Block(ot, ct) ==> {
        &&& ot <= ct < toks.len()
        &&& toks[ot as int] is Open
        &&& (c.key is Some ==> c.stmt_start < toks[ot as int]->Open_0)
        &&& (c.key is None ==> c.stmt_start == toks[ot as int]->Open_0)
        &&& c.stmt_end == close_byte(toks, ot as int, ct as int) + 1
        &&& toks[ot as int]->Open_0 <= close_byte(toks, ot as int, ct as int)
        &&& (toks[ct as int] is Close ==> toks[ot as int]->Open_0 < toks[ct as int]->Close_0)
    })
}

pub open spec fn children_ok(src: Seq<u8>, toks: Seq<Tok>, kids: Seq<Child>) -> bool {
    forall|k: int| 0 <= k < kids.len() ==> child_ok(src, toks, #[trigger] kids[k])
}

proof fn lemma_children_from_ok(src: Seq<u8>, toks: Seq<Tok>, i: int, ce: int)
    requires
        toks_wf(src, toks),
        0 <= i,
        ce <= toks.len(),
        toks.len() <= usize::MAX,
        src.len() <= usize::MAX,
    ensures
        children_ok(src, toks, children_from(toks, i, ce)),
    decreases toks.len() - i,
{
    if i < 0 || i >= ce || ce > toks.len() {
        return;
    }
    let kids = children_from(toks, i, ce);
    assert(tok_ok(src, toks[i]));
    match toks[i] {
        Tok::Sym(ks, ke) => {
            if i + 1 < ce && toks[i + 1] is Eq {
                if i + 2 >= ce {
                    lemma_children_from_ok(src, toks, i + 1, ce);
                } else {
                    assert(tok_ok(src, toks[i + 2]));
                    match toks[i + 2] {
                        Tok::Open(ob) => {
                            lemma_skip_block(toks, i + 2);
                            let close_idx = skip_block(toks, i + 2) - 1;
                            lemma_children_from_ok(src, toks, close_idx + 1, ce);
                            let rest = children_from(toks, close_idx + 1, ce);
                            assert(tok_end(toks[i]) <= tok_start(toks[i + 2]));
                            assert(tok_ok(src, toks[close_idx]));
                            if close_idx > i + 2 {
                                assert(tok_end(toks[i + 2]) <= tok_start(toks[close_idx]));
                            }
                            assert(child_ok(src, toks, kids[0]));
                            assert forall|k: int| 0 <= k < kids.len() implies child_ok(
                                src,
                                toks,
                                #[trigger] kids[k],
                            ) by {
                                if k > 0 {
                                    assert(kids[k] == rest[k - 1]);
                                }
                            }
                        },
                        Tok::Sym(vs, ve) => {
                            lemma_children_from_ok(src, toks, i + 3, ce);
                            let rest = children_from(toks, i + 3, ce);
                            assert(tok_end(toks[i]) <= tok_start(toks[i + 2]));
                            assert forall|k: int| 0 <= k < kids.len() implies child_ok(
                                src,
                                toks,
                                #[trigger] kids[k],
                            ) by {
                                if k > 0 {
                                    assert(kids[k] == rest[k - 1]);
                                }
                            }
                        },
                        _ => {
                            lemma_children_from_ok(src, toks, i + 1, ce);
                        },
                    }
                }
            } else {
                lemma_children_from_ok(src, toks, i + 1, ce);
                let rest = children_from(toks, i + 1, ce);
                assert forall|k: int| 0 <= k < kids.len() implies child_ok(
                    src,
                    toks,
                    #[trigger] kids[k],
                ) by {
                    if k > 0 {
                        assert(kids[k] == rest[k - 1]);
                    }
                }
            }
        },
        Tok::Open(_) => {
            lemma_skip_block(toks, i);
            lemma_children_from_ok(src, toks, skip_block(toks, i), ce);
        },
        _ => {
            lemma_children_from_ok(src, toks, i + 1, ce);
        },
    }
}

pub proof fn lemma_children_ok(src: Seq<u8>, toks: Seq<Tok>, cs: int, ce: int)
    requires
        toks_wf(src, toks),
        0 <= cs,
        ce <= toks.len(),
        toks.len() <= usize::MAX,
        src.len() <= usize::MAX,
    ensures
        children_ok(src, toks, children_from(toks, cs, ce)),
{
    lemma_children_from_ok(src, toks, cs, ce);
}

/// The direct children of the block whose contents span token range
/// `[cs, ce)` (exclusive of the block's own braces). Comments produce no
/// tokens, so they never appear as children.
pub fn children(src: &[u8], toks: &Vec<Tok>, cs: usize, ce: usize) -> (out: Vec<Child>)
    requires
        toks_wf(src@, toks@),
        ce <= toks@.len(),
    ensures
        out@ == children_from(toks@, cs as int, ce as int),
        children_ok(src@, toks@, out@),
        children_ok_bounds(src@, out@),
{
    let mut out: Vec<Child> = Vec::new();
    let mut i = cs;
    let n = src.len();
    while i < ce
        invariant
            n == src@.len(),
            ce <= toks@.len(),
            toks_wf(src@, toks@),
            out@ + children_from(toks@, i as int, ce as int) == children_from(toks@, cs as int, ce as int),
        decreases toks@.len() - i,
    {
        let ghost old_out = out@;
        let ghost old_i = i as int;
        let t = toks[i];
        let is_key = match t {
            Tok::Sym(_, _) => i + 1 < ce && matches!(toks[i + 1], Tok::Eq(_)),
            _ => false,
        };
        if is_key {
            let (ks, ke) = match t {
                Tok::Sym(a, b) => (a, b),
                _ => (0, 0),
            };
            if i + 2 >= ce {
                i = i + 1;
            } else {
                match toks[i + 2] {
                    Tok::Open(ob) => {
                        let close_idx = skip_block_exec(toks, i + 2) - 1;
                        let cb = match toks[close_idx] {
                            Tok::Close(b) => b,
                            _ => ob,
                        };
                        assert(tok_ok(src@, toks@[close_idx as int]));
                        assert(tok_ok(src@, toks@[i + 2]));
                        out.push(
                            Child {
                                key: Some((ks, ke)),
                                val: ValLoc::Block(i + 2, close_idx),
                                stmt_start: ks,
                                stmt_end: cb + 1,
                            },
                        );
                        i = close_idx + 1;
                    },
                    Tok::Sym(vs, ve) => {
                        out.push(
                            Child {
                                key: Some((ks, ke)),
                                val: ValLoc::Scalar(vs, ve),
                                stmt_start: ks,
                                stmt_end: ve,
                            },
                        );
                        i = i + 3;
                    },
                    _ => {
                        i = i + 1;
                    },
                }
            }
        } else {
            match t {
                Tok::Sym(vs, ve) => {
                    out.push(Child { key: None, val: ValLoc::Scalar(vs, ve), stmt_start: vs, stmt_end: ve });
                    i = i + 1;
                },
                Tok::Open(ob) => {
                    let close_idx = skip_block_exec(toks, i) - 1;
                    let cb = match toks[close_idx] {
                        Tok::Close(b) => b,
                        _ => ob,
                    };
                    assert(tok_ok(src@, toks@[close_idx as int]));
                    assert(tok_ok(src@, toks@[i as int]));
                    out.push(Child { key: None, val: ValLoc::Block(i, close_idx), stmt_start: ob, stmt_end: cb + 1 });
                    i = close_idx + 1;
                },
                _ => {
                    i = i + 1;
                },
            }
        }
        proof {
            if out@.len() > old_out.len() {
                assert(out@ == old_out.push(out@.last()));
                assert(children_from(toks@, old_i, ce as int) == seq![out@.last()] + children_from(toks@, i as int, ce as int));
                assert(out@ + children_from(toks@, i as int, ce as int) =~= old_out + children_from(toks@, old_i, ce as int));
            }
        }
    }
    proof {
        assert(out@ =~= out@ + children_from(toks@, i as int, ce as int));
        assert(toks@.len() == toks.len());
        lemma_children_ok(src@, toks@, cs as int, ce as int);
    }
    out
}

// ---------------------------------------------------------------------------
// Occurrence-indexed path addressing.
//
// Duplicate keys are legal (most visibly duplicate dated blocks in province
// histories), so a path segment may carry an optional `#<n>` occurrence
// suffix (0-based, in file order) that selects the nth block child with that
// key. `#` starts a comment in Clausewitz script, so no real key ever contains
// one. A bare segment keeps its first-match meaning, and `#0` is exactly
// first-match.
// ---------------------------------------------------------------------------

/// Position of the last `#` before index `i`.
pub open spec fn last_hash_before(seg: Seq<u8>, i: int) -> Option<int>
    decreases i,
{
    if i <= 0 || i > seg.len() {
        None
    } else if seg[i - 1] == 35 {
        Some(i - 1)
    } else {
        last_hash_before(seg, i - 1)
    }
}

/// A segment split into its key and optional occurrence: `"1500.1.1#2"` is
/// (`"1500.1.1"`, 2); a trailing `#` without a valid number stays part of the key.
pub open spec fn split_occ(seg: Seq<u8>) -> (Seq<u8>, Option<nat>) {
    match last_hash_before(seg, seg.len() as int) {
        Some(p) => match parse_unsigned(seg.subrange(p + 1, seg.len() as int), usize::MAX as nat) {
            Some(n) => (seg.subrange(0, p), Some(n)),
            None => (seg, None),
        },
        None => (seg, None),
    }
}

pub proof fn lemma_last_hash(seg: Seq<u8>, i: int)
    ensures
        last_hash_before(seg, i) matches Some(p) ==> 0 <= p < i && seg[p] == 35,
    decreases i,
{
    if 0 < i <= seg.len() && seg[i - 1] != 35 {
        lemma_last_hash(seg, i - 1);
    }
}

/// Splits an optional `#<n>` occurrence suffix off a path segment.
pub fn split_occurrence(seg: &[u8]) -> (r: (&[u8], Option<usize>))
    ensures
        r.0@ == split_occ(seg@).0,
        r.1 == match split_occ(seg@).1 {
            Some(n) => Some(n as usize),
            None => None::<usize>,
        },
{
    let mut i = seg.len();
    while i > 0 && seg[i - 1] != 35
        invariant
            i <= seg@.len(),
            last_hash_before(seg@, i as int) == last_hash_before(seg@, seg@.len() as int),
        decreases i,
    {
        i = i - 1;
    }
    if i == 0 {
        return (seg, None);
    }
    let pos = i - 1;
    let suffix = &seg[pos + 1..seg.len()];
    match parse_unsigned_bytes(suffix, usize::MAX as u64) {
        Some(n) => (&seg[0..pos], Some(n as usize)),
        None => (seg, None),
    }
}

/// First byte of a child's key (0 when it has none).
pub open spec fn key_start(c: Child) -> int {
    match c.key {
        Some((ks, _)) => ks as int,
        None => 0,
    }
}

/// One past the last byte of a child's key (0 when it has none).
pub open spec fn key_end(c: Child) -> int {
    match c.key {
        Some((_, ke)) => ke as int,
        None => 0,
    }
}

/// Whether child `c` is a `key = { ... }` block whose key equals `base`
/// ignoring ASCII case.
pub open spec fn is_block_named(src: Seq<u8>, c: Child, base: Seq<u8>) -> bool {
    &&& c.key is Some
    &&& eq_ignore_case(src.subrange(key_start(c), key_end(c)), base)
    &&& c.val is Block
}

/// Index of the `n`th (0-based) child from `j` on that satisfies `p`.
pub open spec fn nth_from(kids: Seq<Child>, p: spec_fn(Child) -> bool, j: int, n: nat) -> Option<int>
    decreases kids.len() - j,
{
    if j < 0 || j >= kids.len() {
        None
    } else if p(kids[j]) {
        if n == 0 {
            Some(j)
        } else {
            nth_from(kids, p, j + 1, (n - 1) as nat)
        }
    } else {
        nth_from(kids, p, j + 1, n)
    }
}

pub proof fn lemma_nth_from(kids: Seq<Child>, p: spec_fn(Child) -> bool, j: int, n: nat)
    ensures
        nth_from(kids, p, j, n) matches Some(k) ==> j <= k < kids.len() && p(kids[k]),
    decreases kids.len() - j,
{
    if 0 <= j < kids.len() {
        if p(kids[j]) {
            if n > 0 {
                lemma_nth_from(kids, p, j + 1, (n - 1) as nat);
            }
        } else {
            lemma_nth_from(kids, p, j + 1, n);
        }
    }
}

pub open spec fn block_named(src: Seq<u8>, base: Seq<u8>) -> spec_fn(Child) -> bool {
    |c: Child| is_block_named(src, c, base)
}

/// The occurrence a segment selects (0 for a bare segment).
pub open spec fn occ_index(o: Option<nat>) -> nat {
    match o {
        Some(n) => n,
        None => 0,
    }
}

/// A located block: the token range of its contents plus, for a braced
/// block, the byte offsets of its `{` and `}`.
#[derive(Clone, Copy)]
pub struct Located {
    pub cs: usize,
    pub ce: usize,
    /// `(open_byte, close_byte)`; `None` for the whole-file top level.
    pub braces: Option<(usize, usize)>,
}

/// Resolves `path[k..]` from the block `cur`.
pub open spec fn locate_from(src: Seq<u8>, toks: Seq<Tok>, path: Seq<Seq<u8>>, k: int, cur: Located) -> Option<Located>
    decreases path.len() - k,
{
    if k < 0 || k >= path.len() {
        Some(cur)
    } else {
        let (base, occ) = split_occ(path[k]);
        let kids = children_from(toks, cur.cs as int, cur.ce as int);
        match nth_from(kids, block_named(src, base), 0, occ_index(occ)) {
            None => None,
            Some(j) => {
                let ot = kids[j].val->Block_0 as int;
                let ct = kids[j].val->Block_1 as int;
                if toks[ot] is Open && toks[ct] is Close {
                    locate_from(
                        src,
                        toks,
                        path,
                        k + 1,
                        Located {
                            cs: (ot + 1) as usize,
                            ce: ct as usize,
                            braces: Some((toks[ot]->Open_0, toks[ct]->Close_0)),
                        },
                    )
                } else {
                    None
                }
            },
        }
    }
}

/// The top level of a file (no braces).
pub open spec fn top_level(toks: Seq<Tok>) -> Located {
    Located { cs: 0, ce: toks.len() as usize, braces: None }
}

/// The block named by `path` (each element names a `key = { ... }` child,
/// optionally occurrence-qualified as `key#n`); the empty path is the file.
pub open spec fn locate(src: Seq<u8>, toks: Seq<Tok>, path: Seq<Seq<u8>>) -> Option<Located> {
    locate_from(src, toks, path, 0, top_level(toks))
}

/// A located block is consistent with the token stream.
pub open spec fn loc_ok(src: Seq<u8>, toks: Seq<Tok>, l: Located) -> bool {
    &&& l.cs <= l.ce <= toks.len()
    &&& (l.braces matches Some((ob, cb)) ==> {
        &&& 1 <= l.cs
        &&& l.ce < toks.len()
        &&& toks[l.cs - 1] == Tok::Open(ob)
        &&& toks[l.ce as int] == Tok::Close(cb)
        &&& ob < cb < src.len()
        &&& src[ob as int] == 123
        &&& src[cb as int] == 125
    })
    &&& (l.braces is None ==> l.cs == 0 && l.ce == toks.len())
}

proof fn lemma_locate_from_ok(src: Seq<u8>, toks: Seq<Tok>, path: Seq<Seq<u8>>, k: int, cur: Located)
    requires
        toks_wf(src, toks),
        loc_ok(src, toks, cur),
        toks.len() <= usize::MAX,
        src.len() <= usize::MAX,
    ensures
        locate_from(src, toks, path, k, cur) matches Some(l) ==> loc_ok(src, toks, l),
    decreases path.len() - k,
{
    if k < 0 || k >= path.len() {
        return;
    }
    let (base, occ) = split_occ(path[k]);
    let kids = children_from(toks, cur.cs as int, cur.ce as int);
    lemma_children_ok(src, toks, cur.cs as int, cur.ce as int);
    lemma_nth_from(kids, block_named(src, base), 0, occ_index(occ));
    match nth_from(kids, block_named(src, base), 0, occ_index(occ)) {
        None => {},
        Some(j) => {
            assert(child_ok(src, toks, kids[j]));
            let ot = kids[j].val->Block_0 as int;
            let ct = kids[j].val->Block_1 as int;
            if toks[ot] is Open && toks[ct] is Close {
                assert(tok_ok(src, toks[ot]));
                assert(tok_ok(src, toks[ct]));
                let next = Located {
                    cs: (ot + 1) as usize,
                    ce: ct as usize,
                    braces: Some((toks[ot]->Open_0, toks[ct]->Close_0)),
                };
                assert(loc_ok(src, toks, next));
                lemma_locate_from_ok(src, toks, path, k + 1, next);
            }
        },
    }
}

pub proof fn lemma_locate_ok(src: Seq<u8>, toks: Seq<Tok>, path: Seq<Seq<u8>>)
    requires
        toks_wf(src, toks),
        toks.len() <= usize::MAX,
        src.len() <= usize::MAX,
    ensures
        locate(src, toks, path) matches Some(l) ==> loc_ok(src, toks, l),
{
    lemma_locate_from_ok(src, toks, path, 0, top_level(toks));
}

pub open spec fn path_view(p: Seq<&[u8]>) -> Seq<Seq<u8>> {
    p.map_values(|b: &[u8]| b@)
}

/// Index of the `n`th block child named `base`, as `locate_block` selects it.
pub fn nth_block_named(src: &[u8], kids: &Vec<Child>, base: &[u8], n: usize) -> (r: Option<usize>)
    requires
        children_ok_bounds(src@, kids@),
    ensures
        r == match nth_from(kids@, block_named(src@, base@), 0, n as nat) {
            Some(j) => Some(j as usize),
            None => None::<usize>,
        },
{
    let mut j: usize = 0;
    let mut left = n;
    while j < kids.len()
        invariant
            j <= kids@.len(),
            children_ok_bounds(src@, kids@),
            nth_from(kids@, block_named(src@, base@), j as int, left as nat) == nth_from(kids@, block_named(src@, base@), 0, n as nat),
        decreases kids@.len() - j,
    {
        let c = kids[j];
        let m = match c.key {
            Some((ks, ke)) => bytes_eq_ignore_case(&src[ks..ke], base) && matches!(c.val, ValLoc::Block(_, _)),
            None => false,
        };
        assert(m == is_block_named(src@, kids@[j as int], base@));
        if m {
            if left == 0 {
                return Some(j);
            }
            left = left - 1;
        }
        j = j + 1;
    }
    None
}

/// Key spans of children are in bounds.
pub open spec fn children_ok_bounds(src: Seq<u8>, kids: Seq<Child>) -> bool {
    forall|k: int| 0 <= k < kids.len() ==> ((#[trigger] kids[k]).key is Some ==> key_start(kids[k]) <= key_end(kids[k]) <= src.len())
}

/// Resolves the block named by `path`. An empty path is the whole file.
pub fn locate_block(src: &[u8], toks: &Vec<Tok>, path: &Vec<&[u8]>) -> (r: Option<Located>)
    requires
        toks_wf(src@, toks@),
    ensures
        r == locate(src@, toks@, path_view(path@)),
        r matches Some(l) ==> loc_ok(src@, toks@, l),
{
    let ghost pv = path_view(path@);
    let mut cur = Located { cs: 0, ce: toks.len(), braces: None };
    let mut k: usize = 0;
    proof {
        assert(toks@.len() == toks.len());
        assert(src@.len() == src.len());
        lemma_locate_ok(src@, toks@, pv);
    }
    while k < path.len()
        invariant
            k <= path@.len(),
            pv == path_view(path@),
            toks_wf(src@, toks@),
            toks@.len() == toks.len(),
            src@.len() == src.len(),
            loc_ok(src@, toks@, cur),
            locate_from(src@, toks@, pv, k as int, cur) == locate(src@, toks@, pv),
        decreases path@.len() - k,
    {
        let seg = path[k];
        assert(pv[k as int] == seg@);
        let (base, occ) = split_occurrence(seg);
        let kids = children(src, toks, cur.cs, cur.ce);
        let n = match occ {
            Some(n) => n,
            None => 0,
        };
        let found = nth_block_named(src, &kids, base, n);
        proof {
            lemma_nth_from(kids@, block_named(src@, base@), 0, n as nat);
            assert(kids@.len() == kids.len());
        }
        match found {
            None => return None,
            Some(j) => {
                assert(child_ok(src@, toks@, kids@[j as int]));
                assert(nth_from(kids@, block_named(src@, base@), 0, n as nat) == Some(j as int));
                assert(block_named(src@, base@)(kids@[j as int]));
                assert(is_block_named(src@, kids@[j as int], base@));
                assert(split_occ(pv[k as int]).0 == base@);
                assert(occ_index(split_occ(pv[k as int]).1) == n as nat);
                let (ot, ct) = match kids[j].val {
                    ValLoc::Block(o, c) => (o, c),
                    ValLoc::Scalar(_, _) => (0, 0),
                };
                let ob = match toks[ot] {
                    Tok::Open(b) => b,
                    _ => return None,
                };
                let cb = match toks[ct] {
                    Tok::Close(b) => b,
                    _ => return None,
                };
                assert(tok_ok(src@, toks@[ot as int]));
                assert(tok_ok(src@, toks@[ct as int]));
                cur = Located { cs: ot + 1, ce: ct, braces: Some((ob, cb)) };
            },
        }
        k = k + 1;
    }
    Some(cur)
}

} // verus!
