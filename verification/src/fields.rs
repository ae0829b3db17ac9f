//! Typed-record helpers shared by the definition editors (rebel types,
//! mercenary companies, mechanics families): reading a typed scalar, the
//! presence of a script block, the keys left unmodeled, and the raw text of
//! an entity's block.

use vstd::prelude::*;
use crate::mod_writer::{block_span, block_span_spec, string_path};
use crate::paradox::{first_key, Block, Value};
use crate::script_tree::{trim_chars, trim_spec};
use crate::text::{chars_of, lossy_string, lossy_utf8, opt_view, str_eq, string_from_chars, strings_of};

verus! {

/// The scalar text of the first item keyed `key`, when that value is a scalar.
pub open spec fn scalar_value(items: Seq<(Option<String>, Value)>, key: Seq<char>) -> Option<Seq<char>> {
    match first_key(items, key) {
        Some(i) => match items[i].1 {
            Value::Scalar(v) => Some(v@),
            _ => None,
        },
        None => None,
    }
}

/// Whether the first item keyed `key` holds a block.
pub open spec fn has_block(items: Seq<(Option<String>, Value)>, key: Seq<char>) -> bool {
    match first_key(items, key) {
        Some(i) => items[i].1 is Block,
        None => false,
    }
}

/// The trimmed scalar value of `key`, when present.
pub open spec fn trimmed_value(items: Seq<(Option<String>, Value)>, key: Seq<char>) -> Option<Seq<char>> {
    match scalar_value(items, key) {
        Some(v) => Some(trim_spec(v, false)),
        None => None,
    }
}

/// The scalar value of `key` in the block, trimmed (`str::trim`).
pub fn trimmed_scalar(b: &Block, key: &str) -> (r: Option<String>)
    ensures
        opt_view(r) == trimmed_value(b.items@, key@),
{
    match b.get_scalar(key) {
        Some(s) => {
            let cs = chars_of(s);
            let t = trim_chars(cs.as_slice(), false);
            Some(string_from_chars(t.as_slice()))
        },
        None => None,
    }
}

/// Whether the block holds `key = { … }` (first occurrence of the key).
pub fn block_present(b: &Block, key: &str) -> (r: bool)
    ensures
        r == has_block(b.items@, key@),
{
    b.get_block(key).is_some()
}

/// The keys of `items` not among `modeled`, each once, in first-seen order.
pub open spec fn unmodeled_keys(items: Seq<(Option<String>, Value)>, modeled: Seq<Seq<char>>) -> Seq<Seq<char>>
    decreases items.len(),
{
    if items.len() == 0 {
        Seq::empty()
    } else {
        let rest = unmodeled_keys(items.drop_last(), modeled);
        match items.last().0 {
            Some(k) => if !modeled.contains(k@) && !rest.contains(k@) { rest.push(k@) } else { rest },
            None => rest,
        }
    }
}

pub(crate) fn contains_text(v: &Vec<String>, s: &str) -> (r: bool)
    ensures
        r == strings_of(v@).contains(s@),
{
    let mut i: usize = 0;
    while i < v.len()
        invariant
            i <= v@.len(),
            forall|k: int| 0 <= k < i ==> v@[k]@ != s@,
        decreases v@.len() - i,
    {
        if str_eq(v[i].as_str(), s) {
            assert(strings_of(v@)[i as int] == s@);
            return true;
        }
        i = i + 1;
    }
    proof {
        if strings_of(v@).contains(s@) {
            let k = choose|k: int| 0 <= k < strings_of(v@).len() && strings_of(v@)[k] == s@;
            assert(v@[k]@ == s@);
        }
    }
    false
}

pub(crate) fn contains_static(v: &Vec<&str>, s: &str) -> (r: bool)
    ensures
        r == v@.map_values(|t: &str| t@).contains(s@),
{
    let ghost tv = v@.map_values(|t: &str| t@);
    let mut i: usize = 0;
    while i < v.len()
        invariant
            i <= v@.len(),
            tv == v@.map_values(|t: &str| t@),
            forall|k: int| 0 <= k < i ==> v@[k]@ != s@,
        decreases v@.len() - i,
    {
        if str_eq(v[i], s) {
            assert(tv[i as int] == s@);
            return true;
        }
        i = i + 1;
    }
    proof {
        if tv.contains(s@) {
            let k = choose|k: int| 0 <= k < tv.len() && tv[k] == s@;
            assert(v@[k]@ == s@);
        }
    }
    false
}

/// The texts of a list of string slices.
pub open spec fn texts(v: Seq<&str>) -> Seq<Seq<char>> {
    v.map_values(|t: &str| t@)
}

/// The keys of the block's items not among `modeled` (preserve-unknown), each
/// once, in first-seen order.
pub fn unmodeled(b: &Block, modeled: &Vec<&str>) -> (r: Vec<String>)
    ensures
        strings_of(r@) == unmodeled_keys(b.items@, texts(modeled@)),
{
    let mut out: Vec<String> = Vec::new();
    let mut i: usize = 0;
    while i < b.items.len()
        invariant
            i <= b.items@.len(),
            strings_of(out@) == unmodeled_keys(b.items@.subrange(0, i as int), texts(modeled@)),
        decreases b.items@.len() - i,
    {
        let ghost before = out@;
        assert(b.items@.subrange(0, i + 1).drop_last() =~= b.items@.subrange(0, i as int));
        match &b.items[i].0 {
            Some(k) => {
                if !contains_static(modeled, k.as_str()) && !contains_text(&out, k.as_str()) {
                    out.push(k.clone());
                    assert(strings_of(out@) =~= strings_of(before).push(k@));
                }
            },
            None => {},
        }
        i = i + 1;
    }
    assert(b.items@.subrange(0, b.items@.len() as int) =~= b.items@);
    out
}

/// The keys of the block's items not among the owned `modeled` keys, each
/// once, in first-seen order.
pub fn unmodeled_strings(b: &Block, modeled: &Vec<String>) -> (r: Vec<String>)
    ensures
        strings_of(r@) == unmodeled_keys(b.items@, strings_of(modeled@)),
{
    let mut out: Vec<String> = Vec::new();
    let mut i: usize = 0;
    while i < b.items.len()
        invariant
            i <= b.items@.len(),
            strings_of(out@) == unmodeled_keys(b.items@.subrange(0, i as int), strings_of(modeled@)),
        decreases b.items@.len() - i,
    {
        let ghost before = out@;
        assert(b.items@.subrange(0, i + 1).drop_last() =~= b.items@.subrange(0, i as int));
        match &b.items[i].0 {
            Some(k) => {
                if !contains_text(modeled, k.as_str()) && !contains_text(&out, k.as_str()) {
                    out.push(k.clone());
                    assert(strings_of(out@) =~= strings_of(before).push(k@));
                }
            },
            None => {},
        }
        i = i + 1;
    }
    assert(b.items@.subrange(0, b.items@.len() as int) =~= b.items@);
    out
}

/// The raw text of the block at `path` in the file: its braces-inclusive
/// bytes decoded, or empty when the path resolves to no block.
pub open spec fn raw_text(src: Seq<u8>, path: Seq<Seq<u8>>) -> Seq<char> {
    match block_span_spec(src, path) {
        Some((s, e)) => lossy_utf8(src.subrange(s as int, e as int)),
        None => Seq::empty(),
    }
}

/// The raw text of the block at `path` in the file.
pub fn raw_block(src: &[u8], path: &[String]) -> (r: String)
    ensures
        r@ == raw_text(src@, string_path(path@)),
{
    match block_span(src, path) {
        Some((s, e)) => lossy_string(&src[s..e]),
        None => String::new(),
    }
}

/// A list of static strings as owned strings.
pub fn owned(v: &Vec<&str>) -> (r: Vec<String>)
    ensures
        strings_of(r@) == texts(v@),
{
    let mut out: Vec<String> = Vec::new();
    let mut i: usize = 0;
    while i < v.len()
        invariant
            i <= v@.len(),
            strings_of(out@) == texts(v@.subrange(0, i as int)),
        decreases v@.len() - i,
    {
        let ghost before = out@;
        out.push(v[i].to_string());
        assert(strings_of(out@) =~= strings_of(before).push(v@[i as int]@));
        assert(texts(v@.subrange(0, i + 1)) =~= texts(v@.subrange(0, i as int)).push(v@[i as int]@));
        i = i + 1;
    }
    assert(v@.subrange(0, v@.len() as int) =~= v@);
    out
}

} // verus!
