//! Minimal parser for Paradox/Clausewitz script files (`key = value`,
//! nested `{}` blocks, bare value lists, `#` comments, quoted strings).

use vstd::prelude::*;
use vstd::utf8::encode_utf8;
use crate::lexer::{Tok, tokens, tokenize, toks_wf, tok_ok, lemma_tokens_wf};
use crate::text::{lossy_utf8, lossy_string, str_eq, parse_unsigned, parse_unsigned_bytes};

verus! {

#[derive(Debug)]
pub enum Value {
    Scalar(String),
    Block(Block),
}

#[derive(Debug)]
pub struct Block {
    /// (key, value) pairs; a `None` key is a bare list element.
    pub items: Vec<(Option<String>, Value)>,
}

/// The mathematical content of a [`Value`].
pub enum VValue {
    Scalar(Seq<char>),
    Block(Seq<(Option<Seq<char>>, VValue)>),
}

pub open spec fn key_view(k: Option<String>) -> Option<Seq<char>> {
    match k {
        Some(s) => Some(s@),
        None => None,
    }
}

impl Value {
    pub open spec fn vview(&self) -> VValue
        decreases self,
    {
        match self {
            Value::Scalar(s) => VValue::Scalar(s@),
            Value::Block(b) => VValue::Block(items_vview(b.items@)),
        }
    }
}

impl Block {
    pub open spec fn vview(&self) -> Seq<(Option<Seq<char>>, VValue)> {
        items_vview(self.items@)
    }
}

pub open spec fn items_vview(items: Seq<(Option<String>, Value)>) -> Seq<(Option<Seq<char>>, VValue)>
    decreases items,
{
    if items.len() == 0 {
        Seq::empty()
    } else {
        items_vview(items.drop_last()).push((key_view(items.last().0), items.last().1.vview()))
    }
}

proof fn lemma_items_vview_len(items: Seq<(Option<String>, Value)>)
    ensures
        items_vview(items).len() == items.len(),
    decreases items.len(),
{
    if items.len() > 0 {
        lemma_items_vview_len(items.drop_last());
    }
}

proof fn lemma_items_vview_push(items: Seq<(Option<String>, Value)>, x: (Option<String>, Value))
    ensures
        items_vview(items.push(x)) == items_vview(items).push((key_view(x.0), x.1.vview())),
{
    assert(items.push(x).drop_last() =~= items);
    assert(items.push(x).last() == x);
}

impl Default for Block {
    fn default() -> (b: Block)
        ensures
            b.items@.len() == 0,
    {
        Block { items: Vec::new() }
    }
}

// ---------------------------------------------------------------------------
// Parsing.
// ---------------------------------------------------------------------------

/// The text span of a symbol token `[s, e)`: a quoted token loses its quotes
/// (an unterminated one runs to the end of the input).
pub open spec fn sym_bounds(src: Seq<u8>, s: int, e: int) -> (int, int) {
    if src[s] == 34 {
        if e - 1 > s && src[e - 1] == 34 {
            (s + 1, e - 1)
        } else {
            (s + 1, e)
        }
    } else {
        (s, e)
    }
}

/// The text of the symbol token `[s, e)`.
pub open spec fn sym_text(src: Seq<u8>, s: int, e: int) -> Seq<char> {
    lossy_utf8(src.subrange(sym_bounds(src, s, e).0, sym_bounds(src, s, e).1))
}

/// Parses the items of one block from token `pos` on, up to and including the
/// block's closing brace (or the end of the tokens). Returns the items and the
/// token index just past what was consumed.
pub open spec fn parse_items(src: Seq<u8>, toks: Seq<Tok>, pos: int) -> (
    Seq<(Option<Seq<char>>, VValue)>,
    int,
)
    decreases toks.len() - pos,
{
    if pos < 0 || pos >= toks.len() {
        (Seq::empty(), pos)
    } else {
        match toks[pos] {
            Tok::Close(_) => (Seq::empty(), pos + 1),
            Tok::Open(_) => {
                let (inner, p1) = parse_items(src, toks, pos + 1);
                if p1 <= pos || p1 > toks.len() {
                    (Seq::empty(), toks.len() as int)
                } else {
                    let (rest, p2) = parse_items(src, toks, p1);
                    (seq![(None, VValue::Block(inner))] + rest, p2)
                }
            },
            Tok::Eq(_) => parse_items(src, toks, pos + 1),
            Tok::Sym(s, e) => {
                let key = sym_text(src, s as int, e as int);
                if pos + 1 < toks.len() && toks[pos + 1] is Eq {
                    if pos + 2 < toks.len() && toks[pos + 2] is Open {
                        let (inner, p1) = parse_items(src, toks, pos + 3);
                        if p1 <= pos || p1 > toks.len() {
                            (Seq::empty(), toks.len() as int)
                        } else {
                            let (rest, p2) = parse_items(src, toks, p1);
                            (seq![(Some(key), VValue::Block(inner))] + rest, p2)
                        }
                    } else if pos + 2 < toks.len() && toks[pos + 2] is Sym {
                        let (vs, ve) = (toks[pos + 2]->Sym_0, toks[pos + 2]->Sym_1);
                        let (rest, p2) = parse_items(src, toks, pos + 3);
                        (
                            seq![(Some(key), VValue::Scalar(sym_text(src, vs as int, ve as int)))]
                                + rest,
                            p2,
                        )
                    } else {
                        parse_items(src, toks, pos + 2)
                    }
                } else {
                    let (rest, p2) = parse_items(src, toks, pos + 1);
                    (seq![(None, VValue::Scalar(key))] + rest, p2)
                }
            },
        }
    }
}

/// The items of a whole script text.
pub open spec fn parse_spec(text: Seq<char>) -> Seq<(Option<Seq<char>>, VValue)> {
    let src = encode_utf8(text);
    parse_items(src, tokens(src), 0).0
}

fn sym_string(src: &[u8], s: usize, e: usize) -> (r: String)
    requires
        s < e <= src@.len(),
    ensures
        r@ == sym_text(src@, s as int, e as int),
{
    let (a, b) = if src[s] == 34 {
        if e - 1 > s && src[e - 1] == 34 {
            (s + 1, e - 1)
        } else {
            (s + 1, e)
        }
    } else {
        (s, e)
    };
    lossy_string(&src[a..b])
}

fn parse_block(src: &[u8], toks: &Vec<Tok>, pos: &mut usize) -> (b: Block)
    requires
        *old(pos) <= toks@.len(),
        toks_wf(src@, toks@),
    ensures
        *old(pos) <= *final(pos) <= toks@.len(),
        (b.vview(), *final(pos) as int) == parse_items(src@, toks@, *old(pos) as int),
    decreases toks@.len() - *old(pos),
{
    let ghost start = *pos as int;
    let mut block = Block { items: Vec::new() };
    while *pos < toks.len()
        invariant
            start <= *pos <= toks@.len(),
            start == *old(pos),
            toks_wf(src@, toks@),
            block.vview() + parse_items(src@, toks@, *pos as int).0 == parse_items(
                src@,
                toks@,
                start,
            ).0,
            parse_items(src@, toks@, *pos as int).1 == parse_items(src@, toks@, start).1,
        decreases toks@.len() - *pos,
    {
        let p = *pos;
        let ghost old_items = block.items@;
        let ghost rest_before = parse_items(src@, toks@, p as int);
        assert(tok_ok(src@, toks@[p as int]));
        match toks[p] {
            Tok::Close(_) => {
                *pos = p + 1;
                assert(block.vview() + Seq::<(Option<Seq<char>>, VValue)>::empty() =~= block.vview());
                return block;
            },
            Tok::Open(_) => {
                *pos = p + 1;
                let inner = parse_block(src, toks, pos);
                let ghost iv = (None::<Seq<char>>, VValue::Block(inner.vview()));
                let item = (None, Value::Block(inner));
                block.items.push(item);
                proof {
                    lemma_items_vview_push(old_items, block.items@.last());
                    assert(block.items@ == old_items.push(block.items@.last()));
                    assert(block.vview() == items_vview(old_items).push(iv));
                    assert(rest_before.0 == seq![iv] + parse_items(src@, toks@, *pos as int).0);
                }
            },
            Tok::Eq(_) => {
                *pos = p + 1;
            },
            Tok::Sym(s, e) => {
                if p + 1 < toks.len() && matches!(toks[p + 1], Tok::Eq(_)) {
                    let key = sym_string(src, s, e);
                    *pos = p + 2;
                    if p + 2 < toks.len() && matches!(toks[p + 2], Tok::Open(_)) {
                        *pos = p + 3;
                        let inner = parse_block(src, toks, pos);
                        let ghost iv = (Some(key@), VValue::Block(inner.vview()));
                        block.items.push((Some(key), Value::Block(inner)));
                        proof {
                            lemma_items_vview_push(old_items, block.items@.last());
                    assert(block.items@ == old_items.push(block.items@.last()));
                            assert(block.vview() == items_vview(old_items).push(iv));
                            assert(rest_before.0 == seq![iv] + parse_items(src@, toks@, *pos as int).0);
                        }
                    } else if p + 2 < toks.len() && matches!(toks[p + 2], Tok::Sym(_, _)) {
                        let (vs, ve) = match toks[p + 2] {
                            Tok::Sym(vs, ve) => (vs, ve),
                            _ => (0, 0),
                        };
                        assert(tok_ok(src@, toks@[p + 2]));
                        let v = sym_string(src, vs, ve);
                        let ghost iv = (Some(key@), VValue::Scalar(v@));
                        block.items.push((Some(key), Value::Scalar(v)));
                        *pos = p + 3;
                        proof {
                            lemma_items_vview_push(old_items, block.items@.last());
                    assert(block.items@ == old_items.push(block.items@.last()));
                            assert(block.vview() == items_vview(old_items).push(iv));
                            assert(rest_before.0 == seq![iv] + parse_items(src@, toks@, *pos as int).0);
                        }
                    }
                } else {
                    let v = sym_string(src, s, e);
                    let ghost iv = (None::<Seq<char>>, VValue::Scalar(v@));
                    block.items.push((None, Value::Scalar(v)));
                    *pos = p + 1;
                    proof {
                        lemma_items_vview_push(old_items, block.items@.last());
                    assert(block.items@ == old_items.push(block.items@.last()));
                        assert(block.vview() == items_vview(old_items).push(iv));
                        assert(rest_before.0 == seq![iv] + parse_items(src@, toks@, *pos as int).0);
                    }
                }
            },
        }
        proof {
            let cur = parse_items(src@, toks@, *pos as int);
            assert(block.vview() + cur.0 =~= items_vview(old_items) + rest_before.0);
        }
    }
    assert(block.vview() + Seq::<(Option<Seq<char>>, VValue)>::empty() =~= block.vview());
    block
}

/// Parses a whole script text into its top-level block.
pub fn parse(text: &str) -> (b: Block)
    ensures
        b.vview() == parse_spec(text@),
{
    let bytes = text.as_bytes();
    let toks = tokenize(bytes);
    let mut pos: usize = 0;
    parse_block(bytes, &toks, &mut pos)
}

// ---------------------------------------------------------------------------
// Lookups.
// ---------------------------------------------------------------------------

/// Index of the first item keyed `key` at or after `from`, on the view.
pub open spec fn vfirst_key_from(items: Seq<(Option<Seq<char>>, VValue)>, key: Seq<char>, from: int) -> Option<int>
    decreases items.len() - from,
{
    if from < 0 || from >= items.len() {
        None
    } else if items[from].0 == Some(key) {
        Some(from)
    } else {
        vfirst_key_from(items, key, from + 1)
    }
}

/// The scalar text of the first item keyed `key`, when that value is a scalar.
pub open spec fn scalar_of(items: Seq<(Option<Seq<char>>, VValue)>, key: Seq<char>) -> Option<Seq<char>> {
    match vfirst_key_from(items, key, 0) {
        Some(i) => match items[i].1 {
            VValue::Scalar(v) => Some(v),
            VValue::Block(_) => None,
        },
        None => None,
    }
}

pub proof fn lemma_items_vview_index(items: Seq<(Option<String>, Value)>)
    ensures
        items_vview(items).len() == items.len(),
        forall|i: int| 0 <= i < items.len() ==> #[trigger] items_vview(items)[i] == (key_view(items[i].0), items[i].1.vview()),
    decreases items.len(),
{
    if items.len() > 0 {
        lemma_items_vview_index(items.drop_last());
    }
}

proof fn lemma_first_key_view(items: Seq<(Option<String>, Value)>, key: Seq<char>, from: int)
    requires
        0 <= from,
    ensures
        first_key_from(items, key, from) == vfirst_key_from(items_vview(items), key, from),
        first_key_from(items, key, from) matches Some(i) ==> from <= i < items.len(),
    decreases items.len() - from,
{
    lemma_items_vview_index(items);
    if from < items.len() {
        lemma_first_key_view(items, key, from + 1);
    }
}

/// Index of the first item keyed `key` at or after `from`.
pub open spec fn first_key_from(items: Seq<(Option<String>, Value)>, key: Seq<char>, from: int) -> Option<int>
    decreases items.len() - from,
{
    if from < 0 || from >= items.len() {
        None
    } else if items[from].0 is Some && items[from].0->0@ == key {
        Some(from)
    } else {
        first_key_from(items, key, from + 1)
    }
}

/// Index of the first item keyed `key`.
pub open spec fn first_key(items: Seq<(Option<String>, Value)>, key: Seq<char>) -> Option<int> {
    first_key_from(items, key, 0)
}

/// The bare (keyless) scalar texts of `items`, in order.
pub open spec fn bare_texts(items: Seq<(Option<String>, Value)>) -> Seq<Seq<char>>
    decreases items.len(),
{
    if items.len() == 0 {
        Seq::empty()
    } else {
        let rest = bare_texts(items.drop_last());
        match items.last() {
            (None, Value::Scalar(s)) => rest.push(s@),
            _ => rest,
        }
    }
}

/// The bare scalars that read as `u32` numbers, parsed, in order.
pub open spec fn parsed_ids(texts: Seq<Seq<char>>) -> Seq<u32>
    decreases texts.len(),
{
    if texts.len() == 0 {
        Seq::empty()
    } else {
        let rest = parsed_ids(texts.drop_last());
        match parse_unsigned(encode_utf8(texts.last()), u32::MAX as nat) {
            Some(v) => rest.push(v as u32),
            None => rest,
        }
    }
}

/// The `key = { ... }` items of `items`, in order.
pub open spec fn keyed_blocks(items: Seq<(Option<String>, Value)>) -> Seq<(Seq<char>, Block)>
    decreases items.len(),
{
    if items.len() == 0 {
        Seq::empty()
    } else {
        let rest = keyed_blocks(items.drop_last());
        match items.last() {
            (Some(k), Value::Block(b)) => rest.push((k@, b)),
            _ => rest,
        }
    }
}


/// The block of the first item keyed `key`, when that value is a block, on
/// the view.
pub open spec fn vblock_of(items: Seq<(Option<Seq<char>>, VValue)>, key: Seq<char>) -> Option<Seq<(Option<Seq<char>>, VValue)>> {
    match vfirst_key_from(items, key, 0) {
        Some(i) => match items[i].1 {
            VValue::Block(b) => Some(b),
            _ => None,
        },
        None => None,
    }
}

/// The `key = { ... }` items, on the view.
pub open spec fn vkeyed_blocks(items: Seq<(Option<Seq<char>>, VValue)>) -> Seq<(Seq<char>, Seq<(Option<Seq<char>>, VValue)>)>
    decreases items.len(),
{
    if items.len() == 0 {
        Seq::empty()
    } else {
        let rest = vkeyed_blocks(items.drop_last());
        match items.last() {
            (Some(k), VValue::Block(b)) => rest.push((k, b)),
            _ => rest,
        }
    }
}

/// The bare scalar texts, on the view.
pub open spec fn vbare_texts(items: Seq<(Option<Seq<char>>, VValue)>) -> Seq<Seq<char>>
    decreases items.len(),
{
    if items.len() == 0 {
        Seq::empty()
    } else {
        let rest = vbare_texts(items.drop_last());
        match items.last() {
            (None, VValue::Scalar(s)) => rest.push(s),
            _ => rest,
        }
    }
}

/// The keyed blocks of the view are those of the items, viewed.
pub proof fn lemma_keyed_view(items: Seq<(Option<String>, Value)>)
    ensures
        vkeyed_blocks(items_vview(items)).len() == keyed_blocks(items).len(),
        forall|k: int| 0 <= k < keyed_blocks(items).len() ==> #[trigger] vkeyed_blocks(items_vview(items))[k]
            == (keyed_blocks(items)[k].0, keyed_blocks(items)[k].1.vview()),
    decreases items.len(),
{
    if items.len() > 0 {
        lemma_keyed_view(items.drop_last());
        let v = items_vview(items);
        assert(v == items_vview(items.drop_last()).push((key_view(items.last().0), items.last().1.vview())));
        assert(v.drop_last() =~= items_vview(items.drop_last()));
        assert(v.last() == (key_view(items.last().0), items.last().1.vview()));
        match items.last() {
            (Some(k), Value::Block(b)) => {
                assert(items.last().1.vview() == VValue::Block(b.vview()));
            },
            (None, Value::Scalar(t)) => {
                assert(items.last().1.vview() == VValue::Scalar(t@));
            },
            (Some(k), Value::Scalar(t)) => {
                assert(items.last().1.vview() == VValue::Scalar(t@));
            },
            (None, Value::Block(b)) => {
                assert(items.last().1.vview() == VValue::Block(b.vview()));
            },
        }
    }
}

/// The bare texts of the view are those of the items.
pub proof fn lemma_bare_view(items: Seq<(Option<String>, Value)>)
    ensures
        vbare_texts(items_vview(items)) == bare_texts(items),
    decreases items.len(),
{
    if items.len() > 0 {
        lemma_bare_view(items.drop_last());
        let v = items_vview(items);
        assert(v == items_vview(items.drop_last()).push((key_view(items.last().0), items.last().1.vview())));
        assert(v.drop_last() =~= items_vview(items.drop_last()));
        assert(v.last() == (key_view(items.last().0), items.last().1.vview()));
        match items.last() {
            (Some(k), Value::Block(b)) => {
                assert(items.last().1.vview() == VValue::Block(b.vview()));
            },
            (None, Value::Scalar(t)) => {
                assert(items.last().1.vview() == VValue::Scalar(t@));
            },
            (Some(k), Value::Scalar(t)) => {
                assert(items.last().1.vview() == VValue::Scalar(t@));
            },
            (None, Value::Block(b)) => {
                assert(items.last().1.vview() == VValue::Block(b.vview()));
            },
        }
    }
}

/// The block `get_block` finds is the one of the view.
pub proof fn lemma_block_view(items: Seq<(Option<String>, Value)>, key: Seq<char>)
    ensures
        vblock_of(items_vview(items), key) == match first_key(items, key) {
            Some(i) => match items[i].1 {
                Value::Block(b) => Some(b.vview()),
                _ => None,
            },
            None => None,
        },
{
    lemma_first_key_view(items, key, 0);
    lemma_items_vview_index(items);
}

impl Block {
    /// The value of the first item keyed `key`.
    pub fn get(&self, key: &str) -> (r: Option<&Value>)
        ensures
            r == match first_key(self.items@, key@) {
                Some(i) => Some(&self.items@[i].1),
                None => None::<&Value>,
            },
    {
        let mut i: usize = 0;
        while i < self.items.len()
            invariant
                i <= self.items@.len(),
                first_key_from(self.items@, key@, i as int) == first_key(self.items@, key@),
            decreases self.items@.len() - i,
        {
            let matched = match &self.items[i].0 {
                Some(k) => str_eq(k.as_str(), key),
                None => false,
            };
            if matched {
                return Some(&self.items[i].1);
            }
            i = i + 1;
        }
        None
    }

    /// The first item keyed `key`, when its value is a scalar.
    pub fn get_scalar(&self, key: &str) -> (r: Option<&str>)
        ensures
            r matches Some(s) ==> first_key(self.items@, key@) matches Some(i) && self.items@[i].1 matches Value::Scalar(v) && v@ == s@,
            r is None ==> !(first_key(self.items@, key@) matches Some(i) && self.items@[i].1 is Scalar),
            scalar_of(self.vview(), key@) == match r {
                Some(s) => Some(s@),
                None => None::<Seq<char>>,
            },
    {
        proof {
            lemma_first_key_view(self.items@, key@, 0);
            lemma_items_vview_index(self.items@);
            if let Some(i) = first_key(self.items@, key@) {
                assert(self.vview()[i] == (key_view(self.items@[i].0), self.items@[i].1.vview()));
            }
        }
        match self.get(key) {
            Some(Value::Scalar(s)) => Some(s.as_str()),
            _ => None,
        }
    }

    /// The first item keyed `key`, when its value is a block.
    pub fn get_block(&self, key: &str) -> (r: Option<&Block>)
        ensures
            r == match first_key(self.items@, key@) {
                Some(i) => match self.items@[i].1 {
                    Value::Block(b) => Some(&b),
                    _ => None::<&Block>,
                },
                None => None::<&Block>,
            },
    {
        match self.get(key) {
            Some(Value::Block(b)) => Some(b),
            _ => None,
        }
    }

    /// Bare (keyless) scalar items, e.g. the ids in `tropical = { 1 2 3 }`.
    pub fn bare_scalars(&self) -> (r: Vec<&str>)
        ensures
            r@.len() == bare_texts(self.items@).len(),
            forall|k: int| 0 <= k < r@.len() ==> (#[trigger] r@[k])@ == bare_texts(self.items@)[k],
    {
        let mut out: Vec<&str> = Vec::new();
        let mut i: usize = 0;
        while i < self.items.len()
            invariant
                i <= self.items@.len(),
                out@.len() == bare_texts(self.items@.subrange(0, i as int)).len(),
                forall|k: int| 0 <= k < out@.len() ==> (#[trigger] out@[k])@ == bare_texts(self.items@.subrange(0, i as int))[k],
            decreases self.items@.len() - i,
        {
            assert(self.items@.subrange(0, i + 1).drop_last() =~= self.items@.subrange(0, i as int));
            match &self.items[i] {
                (None, Value::Scalar(s)) => {
                    out.push(s.as_str());
                },
                _ => {},
            }
            i = i + 1;
        }
        assert(self.items@.subrange(0, self.items@.len() as int) =~= self.items@);
        out
    }

    /// The bare scalars that parse as `u32`, in order.
    pub fn bare_ids(&self) -> (r: Vec<u32>)
        ensures
            r@ == parsed_ids(bare_texts(self.items@)),
    {
        let texts = self.bare_scalars();
        let ghost ts = bare_texts(self.items@);
        let mut out: Vec<u32> = Vec::new();
        let mut i: usize = 0;
        while i < texts.len()
            invariant
                i <= texts@.len(),
                texts@.len() == ts.len(),
                forall|k: int| 0 <= k < texts@.len() ==> (#[trigger] texts@[k])@ == ts[k],
                out@ == parsed_ids(ts.subrange(0, i as int)),
            decreases texts@.len() - i,
        {
            assert(ts.subrange(0, i + 1).drop_last() =~= ts.subrange(0, i as int));
            assert(ts.subrange(0, i + 1).last() == texts@[i as int]@);
            let parsed = parse_unsigned_bytes(texts[i].as_bytes(), 0xFFFF_FFFFu64);
            match parsed {
                Some(v) => out.push(v as u32),
                None => {},
            }
            i = i + 1;
        }
        assert(ts.subrange(0, ts.len() as int) =~= ts);
        out
    }

    /// All `key = { ... }` items in order.
    pub fn key_blocks(&self) -> (r: Vec<(&str, &Block)>)
        ensures
            r@.len() == keyed_blocks(self.items@).len(),
            forall|k: int| 0 <= k < r@.len() ==> (#[trigger] r@[k]).0@ == keyed_blocks(self.items@)[k].0
                && *r@[k].1 == keyed_blocks(self.items@)[k].1,
    {
        let mut out: Vec<(&str, &Block)> = Vec::new();
        let mut i: usize = 0;
        while i < self.items.len()
            invariant
                i <= self.items@.len(),
                out@.len() == keyed_blocks(self.items@.subrange(0, i as int)).len(),
                forall|k: int| 0 <= k < out@.len() ==> (#[trigger] out@[k]).0@ == keyed_blocks(self.items@.subrange(0, i as int))[k].0
                    && *out@[k].1 == keyed_blocks(self.items@.subrange(0, i as int))[k].1,
            decreases self.items@.len() - i,
        {
            assert(self.items@.subrange(0, i + 1).drop_last() =~= self.items@.subrange(0, i as int));
            match &self.items[i] {
                (Some(k), Value::Block(b)) => {
                    out.push((k.as_str(), b));
                },
                _ => {},
            }
            i = i + 1;
        }
        assert(self.items@.subrange(0, self.items@.len() as int) =~= self.items@);
        out
    }
}

} // verus!
