//! A typed tree over any Paradox/Clausewitz trigger/effect block, plus the
//! curated known-trigger / known-effect registries and the raw-editor
//! validation of a script fragment.
//!
//! The tree is built from the [`mod_writer`](crate::mod_writer) spans API:
//! every node carries its byte-surgical **path** (with `#n` occurrence
//! ordinals on block ancestors), so a leaf is edited via `SetScalar { path }`
//! and a block-valued leaf via `SetBlock { path }` without re-parsing.
//!
//! Nodes are one of:
//!   * **group** — a scope changer (`FRA = { … }`, a province id, `ROOT`/`THIS`,
//!     an `any_/all_/every_/random_` quantifier) or a logical combinator
//!     (`AND`/`OR`/`NOT`/…). Groups recurse.
//!   * **leaf** — a `key = value` condition/effect with a typed value, or, for
//!     `key = { … }` conditions, a raw `block` value preserved verbatim.

use vstd::prelude::*;
use vstd::string::StringSliceAdditionalSpecFns;
use crate::mod_writer::{
    block_children, block_span, block_span_spec, child_spans, spans_view, string_path, ChildSpan, SpanView,
    located_children, key_bytes, is_scalar_named, is_latin1, latin1_bytes, quoted_bytes, splice, set_scalar_spec,
    lemma_scalar_path_addresses, lemma_occurrence_addressing, occ_segment, key_unambiguous,
};
use crate::lexer::tokens;
use crate::navigate::locate;
use crate::text::{
    chars_of, chars_eq_str, chars_start_with, clone_strings, decimal, lossy_string, lossy_utf8,
    lower_chars, lower_text, segment, segment_spec, string_from_chars, upper_chars, upper_text,
    usize_to_string,
};

verus! {

// ---------------------------------------------------------------------------
// Tree model
// ---------------------------------------------------------------------------

/// A leaf's typed value.
#[derive(Debug)]
pub struct TypedValue {
    /// `bool` | `number` | `tag` | `scope` | `string` | `block`.
    pub kind: String,
    /// The value text as written (quotes stripped for `string`; braces-inclusive
    /// for a `block` value).
    pub text: String,
}

/// One node of the typed script tree.
#[derive(Debug)]
pub struct TreeNode {
    /// `group` | `leaf`.
    pub node_type: String,
    /// Statement key; `None` for a bare list element or an anonymous `{ … }`.
    pub key: Option<String>,
    /// Byte-surgical path from the addressed root block to this node. Block
    /// ancestors carry `#n` occurrence suffixes; a scalar leaf's final
    /// segment is the bare key (so `SetScalar { path }` applies directly).
    /// Empty when the node is a non-addressable bare/anonymous element.
    pub path: Vec<String>,
    /// Group classification (empty for leaves).
    pub group_kind: String,
    /// Typed value (leaves only).
    pub value: Option<TypedValue>,
    /// Child nodes (groups only).
    pub children: Vec<TreeNode>,
    /// Raw statement text.
    pub raw: String,
}

/// The mathematical content of a [`TreeNode`].
pub struct NodeView {
    pub node_type: Seq<char>,
    pub key: Option<Seq<char>>,
    pub path: Seq<Seq<char>>,
    pub group_kind: Seq<char>,
    pub value: Option<(Seq<char>, Seq<char>)>,
    pub children: Seq<NodeView>,
    pub raw: Seq<char>,
}

pub open spec fn strings_view(v: Seq<String>) -> Seq<Seq<char>> {
    v.map_values(|s: String| s@)
}

impl TypedValue {
    pub open spec fn tview(&self) -> (Seq<char>, Seq<char>) {
        (self.kind@, self.text@)
    }
}

impl TreeNode {
    pub open spec fn nview(&self) -> NodeView
        decreases self,
    {
        NodeView {
            node_type: self.node_type@,
            key: match self.key {
                Some(k) => Some(k@),
                None => None,
            },
            path: strings_view(self.path@),
            group_kind: self.group_kind@,
            value: match self.value {
                Some(v) => Some(v.tview()),
                None => None,
            },
            children: nodes_view(self.children@),
            raw: self.raw@,
        }
    }
}

pub open spec fn nodes_view(ns: Seq<TreeNode>) -> Seq<NodeView>
    decreases ns,
{
    if ns.len() == 0 {
        Seq::empty()
    } else {
        nodes_view(ns.drop_last()).push(ns.last().nview())
    }
}

proof fn lemma_nodes_view_push(ns: Seq<TreeNode>, n: TreeNode)
    ensures
        nodes_view(ns.push(n)) == nodes_view(ns).push(n.nview()),
{
    assert(ns.push(n).drop_last() =~= ns);
}

// ---------------------------------------------------------------------------
// Classification
// ---------------------------------------------------------------------------

pub open spec fn is_upper_or_digit(c: char) -> bool {
    ('A' <= c <= 'Z') || ('0' <= c <= '9')
}

pub open spec fn is_digit_char(c: char) -> bool {
    '0' <= c <= '9'
}

/// A 3-char country tag: upper-case letters and digits.
pub open spec fn is_tag_text(s: Seq<char>) -> bool {
    s.len() == 3 && forall|i: int| 0 <= i < s.len() ==> is_upper_or_digit(#[trigger] s[i])
}

/// A province id: one or more digits.
pub open spec fn is_id_text(s: Seq<char>) -> bool {
    s.len() > 0 && forall|i: int| 0 <= i < s.len() ==> is_digit_char(#[trigger] s[i])
}

pub open spec fn starts_with(s: Seq<char>, p: Seq<char>) -> bool {
    p.len() <= s.len() && s.subrange(0, p.len() as int) == p
}

/// The group classification of a keyed block, or `""` when the block is a
/// block-valued *leaf* (a condition/effect with a `{ … }` argument).
pub open spec fn classify_spec(key: Seq<char>) -> Seq<char> {
    let up = upper_text(key);
    if up == "AND"@ {
        "and"@
    } else if up == "OR"@ {
        "or"@
    } else if up == "NOT"@ {
        "not"@
    } else if up == "NAND"@ {
        "nand"@
    } else if up == "NOR"@ {
        "nor"@
    } else if up == "HIDDEN_TRIGGER"@ {
        "hidden"@
    } else if up == "CUSTOM_TRIGGER_TOOLTIP"@ {
        "tooltip"@
    } else if up == "IF"@ || up == "ELSE_IF"@ || up == "ELSE"@ || up == "WHILE"@ {
        "control"@
    } else if up == "LIMIT"@ {
        "limit"@
    } else if up == "CALC_TRUE_IF"@ {
        "calc"@
    } else if up == "ROOT"@ || up == "THIS"@ || up == "FROM"@ || up == "PREV"@ || up == "PREV_PREV"@
        || up == "PREV_PREV_PREV"@ || up == "FROM_FROM"@ || up == "OWNER"@ || up == "CONTROLLER"@
        || up == "EMPEROR"@ || up == "CAPITAL_SCOPE"@ || up == "COLONIAL_PARENT"@ {
        "scope"@
    } else {
        let lower = lower_text(key);
        if starts_with(lower, "any_"@) || starts_with(lower, "all_"@) || starts_with(lower, "every_"@)
            || starts_with(lower, "random_"@) {
            "quantifier"@
        } else if is_tag_text(key) {
            "scope"@
        } else if is_id_text(key) {
            "scope"@
        } else {
            ""@
        }
    }
}

fn all_upper_or_digit(cs: &[char]) -> (r: bool)
    ensures
        r == forall|i: int| 0 <= i < cs@.len() ==> is_upper_or_digit(#[trigger] cs@[i]),
{
    let mut i: usize = 0;
    while i < cs.len()
        invariant
            i <= cs@.len(),
            forall|j: int| 0 <= j < i ==> is_upper_or_digit(#[trigger] cs@[j]),
        decreases cs@.len() - i,
    {
        let c = cs[i];
        if !(('A' <= c && c <= 'Z') || ('0' <= c && c <= '9')) {
            return false;
        }
        i = i + 1;
    }
    true
}

fn all_digit_chars(cs: &[char]) -> (r: bool)
    ensures
        r == forall|i: int| 0 <= i < cs@.len() ==> is_digit_char(#[trigger] cs@[i]),
{
    let mut i: usize = 0;
    while i < cs.len()
        invariant
            i <= cs@.len(),
            forall|j: int| 0 <= j < i ==> is_digit_char(#[trigger] cs@[j]),
        decreases cs@.len() - i,
    {
        let c = cs[i];
        if !('0' <= c && c <= '9') {
            return false;
        }
        i = i + 1;
    }
    true
}

/// Classifies a keyed block as a recognized group construct, or returns `""`
/// when the block is a block-valued *leaf*.
/// The five logic operators name their own groups: a key that upper-cases
/// to AND, OR, NOT, NAND or NOR classifies as `and`, `or`, `not`, `nand` or
/// `nor` respectively, and these five kinds are pairwise distinct.
pub proof fn lemma_logic_operators(key: Seq<char>)
    ensures
        upper_text(key) == "AND"@ ==> classify_spec(key) == "and"@,
        upper_text(key) == "OR"@ ==> classify_spec(key) == "or"@,
        upper_text(key) == "NOT"@ ==> classify_spec(key) == "not"@,
        upper_text(key) == "NAND"@ ==> classify_spec(key) == "nand"@,
        upper_text(key) == "NOR"@ ==> classify_spec(key) == "nor"@,
        "or"@ != "and"@ && "not"@ != "and"@ && "not"@ != "or"@ && "nand"@ != "and"@ && "nand"@ != "or"@ && "nand"@ != "not"@ && "nor"@ != "and"@ && "nor"@ != "or"@ && "nor"@ != "not"@ && "nor"@ != "nand"@,
{
    reveal_strlit("AND");
    assert("AND"@.len() == 3);
    reveal_strlit("and");
    assert("and"@.len() == 3);
    reveal_strlit("OR");
    assert("OR"@.len() == 2);
    reveal_strlit("or");
    assert("or"@.len() == 2);
    reveal_strlit("NOT");
    assert("NOT"@.len() == 3);
    reveal_strlit("not");
    assert("not"@.len() == 3);
    reveal_strlit("NAND");
    assert("NAND"@.len() == 4);
    reveal_strlit("nand");
    assert("nand"@.len() == 4);
    reveal_strlit("NOR");
    assert("NOR"@.len() == 3);
    reveal_strlit("nor");
    assert("nor"@.len() == 3);
    assert("OR"@ != "AND"@);
    assert("or"@ != "and"@);
    assert("NOT"@[0] == 'N' && "AND"@[0] == 'A');
    assert("not"@[0] == 'n' && "and"@[0] == 'a');
    assert("NOT"@ != "AND"@);
    assert("not"@ != "and"@);
    assert("NOT"@ != "OR"@);
    assert("not"@ != "or"@);
    assert("NAND"@ != "AND"@);
    assert("nand"@ != "and"@);
    assert("NAND"@ != "OR"@);
    assert("nand"@ != "or"@);
    assert("NAND"@ != "NOT"@);
    assert("nand"@ != "not"@);
    assert("NOR"@[0] == 'N' && "AND"@[0] == 'A');
    assert("nor"@[0] == 'n' && "and"@[0] == 'a');
    assert("NOR"@ != "AND"@);
    assert("nor"@ != "and"@);
    assert("NOR"@ != "OR"@);
    assert("nor"@ != "or"@);
    assert("NOR"@[2] == 'R' && "NOT"@[2] == 'T');
    assert("nor"@[2] == 'r' && "not"@[2] == 't');
    assert("NOR"@ != "NOT"@);
    assert("nor"@ != "not"@);
    assert("NOR"@ != "NAND"@);
    assert("nor"@ != "nand"@);
}

/// The other fixed group keywords: HIDDEN_TRIGGER is `hidden`,
/// CUSTOM_TRIGGER_TOOLTIP is `tooltip`, IF / ELSE_IF / ELSE / WHILE are
/// `control`, LIMIT is `limit`, CALC_TRUE_IF is `calc`, and the scope
/// keywords (ROOT, THIS, FROM, PREV, PREV_PREV, PREV_PREV_PREV, FROM_FROM,
/// OWNER, CONTROLLER, EMPEROR, CAPITAL_SCOPE, COLONIAL_PARENT) are `scope`,
/// whatever the key's letter case.
pub proof fn lemma_group_keywords(key: Seq<char>)
    ensures
        upper_text(key) == "HIDDEN_TRIGGER"@ ==> classify_spec(key) == "hidden"@,
        upper_text(key) == "CUSTOM_TRIGGER_TOOLTIP"@ ==> classify_spec(key) == "tooltip"@,
        upper_text(key) == "IF"@ ==> classify_spec(key) == "control"@,
        upper_text(key) == "ELSE_IF"@ ==> classify_spec(key) == "control"@,
        upper_text(key) == "ELSE"@ ==> classify_spec(key) == "control"@,
        upper_text(key) == "WHILE"@ ==> classify_spec(key) == "control"@,
        upper_text(key) == "LIMIT"@ ==> classify_spec(key) == "limit"@,
        upper_text(key) == "CALC_TRUE_IF"@ ==> classify_spec(key) == "calc"@,
        upper_text(key) == "ROOT"@ ==> classify_spec(key) == "scope"@,
        upper_text(key) == "THIS"@ ==> classify_spec(key) == "scope"@,
        upper_text(key) == "FROM"@ ==> classify_spec(key) == "scope"@,
        upper_text(key) == "PREV"@ ==> classify_spec(key) == "scope"@,
        upper_text(key) == "PREV_PREV"@ ==> classify_spec(key) == "scope"@,
        upper_text(key) == "PREV_PREV_PREV"@ ==> classify_spec(key) == "scope"@,
        upper_text(key) == "FROM_FROM"@ ==> classify_spec(key) == "scope"@,
        upper_text(key) == "OWNER"@ ==> classify_spec(key) == "scope"@,
        upper_text(key) == "CONTROLLER"@ ==> classify_spec(key) == "scope"@,
        upper_text(key) == "EMPEROR"@ ==> classify_spec(key) == "scope"@,
        upper_text(key) == "CAPITAL_SCOPE"@ ==> classify_spec(key) == "scope"@,
        upper_text(key) == "COLONIAL_PARENT"@ ==> classify_spec(key) == "scope"@,
{
    lemma_keyword_and(key);
    lemma_keyword_or(key);
    lemma_keyword_not(key);
    lemma_keyword_nand(key);
    lemma_keyword_nor(key);
    lemma_keyword_hidden_trigger(key);
    lemma_keyword_custom_trigger_tooltip(key);
    lemma_keyword_if(key);
    lemma_keyword_else_if(key);
    lemma_keyword_else(key);
    lemma_keyword_while(key);
    lemma_keyword_limit(key);
    lemma_keyword_calc_true_if(key);
    lemma_keyword_root(key);
    lemma_keyword_this(key);
    lemma_keyword_from(key);
    lemma_keyword_prev(key);
    lemma_keyword_prev_prev(key);
    lemma_keyword_prev_prev_prev(key);
    lemma_keyword_from_from(key);
    lemma_keyword_owner(key);
    lemma_keyword_controller(key);
    lemma_keyword_emperor(key);
    lemma_keyword_capital_scope(key);
    lemma_keyword_colonial_parent(key);
}

proof fn lemma_keyword_and(key: Seq<char>)
    ensures
        upper_text(key) == "AND"@ ==> classify_spec(key) == "and"@,
{
    reveal_strlit("AND");
    assert("AND"@.len() == 3);
}

proof fn lemma_keyword_or(key: Seq<char>)
    ensures
        upper_text(key) == "OR"@ ==> classify_spec(key) == "or"@,
{
    reveal_strlit("OR");
    assert("OR"@.len() == 2);
    reveal_strlit("AND");
    assert("AND"@.len() == 3);
    assert("OR"@ != "AND"@);
}

proof fn lemma_keyword_not(key: Seq<char>)
    ensures
        upper_text(key) == "NOT"@ ==> classify_spec(key) == "not"@,
{
    reveal_strlit("NOT");
    assert("NOT"@.len() == 3);
    reveal_strlit("AND");
    assert("AND"@.len() == 3);
    assert("NOT"@[0] == 'N' && "AND"@[0] == 'A');
    assert("NOT"@ != "AND"@);
    reveal_strlit("OR");
    assert("OR"@.len() == 2);
    assert("NOT"@ != "OR"@);
}

proof fn lemma_keyword_nand(key: Seq<char>)
    ensures
        upper_text(key) == "NAND"@ ==> classify_spec(key) == "nand"@,
{
    reveal_strlit("NAND");
    assert("NAND"@.len() == 4);
    reveal_strlit("AND");
    assert("AND"@.len() == 3);
    assert("NAND"@ != "AND"@);
    reveal_strlit("OR");
    assert("OR"@.len() == 2);
    assert("NAND"@ != "OR"@);
    reveal_strlit("NOT");
    assert("NOT"@.len() == 3);
    assert("NAND"@ != "NOT"@);
}

proof fn lemma_keyword_nor(key: Seq<char>)
    ensures
        upper_text(key) == "NOR"@ ==> classify_spec(key) == "nor"@,
{
    reveal_strlit("NOR");
    assert("NOR"@.len() == 3);
    reveal_strlit("AND");
    assert("AND"@.len() == 3);
    assert("NOR"@[0] == 'N' && "AND"@[0] == 'A');
    assert("NOR"@ != "AND"@);
    reveal_strlit("OR");
    assert("OR"@.len() == 2);
    assert("NOR"@ != "OR"@);
    reveal_strlit("NOT");
    assert("NOT"@.len() == 3);
    assert("NOR"@[2] == 'R' && "NOT"@[2] == 'T');
    assert("NOR"@ != "NOT"@);
    reveal_strlit("NAND");
    assert("NAND"@.len() == 4);
    assert("NOR"@ != "NAND"@);
}

proof fn lemma_keyword_hidden_trigger(key: Seq<char>)
    ensures
        upper_text(key) == "HIDDEN_TRIGGER"@ ==> classify_spec(key) == "hidden"@,
{
    reveal_strlit("HIDDEN_TRIGGER");
    assert("HIDDEN_TRIGGER"@.len() == 14);
    reveal_strlit("AND");
    assert("AND"@.len() == 3);
    assert("HIDDEN_TRIGGER"@ != "AND"@);
    reveal_strlit("OR");
    assert("OR"@.len() == 2);
    assert("HIDDEN_TRIGGER"@ != "OR"@);
    reveal_strlit("NOT");
    assert("NOT"@.len() == 3);
    assert("HIDDEN_TRIGGER"@ != "NOT"@);
    reveal_strlit("NAND");
    assert("NAND"@.len() == 4);
    assert("HIDDEN_TRIGGER"@ != "NAND"@);
    reveal_strlit("NOR");
    assert("NOR"@.len() == 3);
    assert("HIDDEN_TRIGGER"@ != "NOR"@);
}

proof fn lemma_keyword_custom_trigger_tooltip(key: Seq<char>)
    ensures
        upper_text(key) == "CUSTOM_TRIGGER_TOOLTIP"@ ==> classify_spec(key) == "tooltip"@,
{
    reveal_strlit("CUSTOM_TRIGGER_TOOLTIP");
    assert("CUSTOM_TRIGGER_TOOLTIP"@.len() == 22);
    reveal_strlit("AND");
    assert("AND"@.len() == 3);
    assert("CUSTOM_TRIGGER_TOOLTIP"@ != "AND"@);
    reveal_strlit("OR");
    assert("OR"@.len() == 2);
    assert("CUSTOM_TRIGGER_TOOLTIP"@ != "OR"@);
    reveal_strlit("NOT");
    assert("NOT"@.len() == 3);
    assert("CUSTOM_TRIGGER_TOOLTIP"@ != "NOT"@);
    reveal_strlit("NAND");
    assert("NAND"@.len() == 4);
    assert("CUSTOM_TRIGGER_TOOLTIP"@ != "NAND"@);
    reveal_strlit("NOR");
    assert("NOR"@.len() == 3);
    assert("CUSTOM_TRIGGER_TOOLTIP"@ != "NOR"@);
    reveal_strlit("HIDDEN_TRIGGER");
    assert("HIDDEN_TRIGGER"@.len() == 14);
    assert("CUSTOM_TRIGGER_TOOLTIP"@ != "HIDDEN_TRIGGER"@);
}

proof fn lemma_keyword_if(key: Seq<char>)
    ensures
        upper_text(key) == "IF"@ ==> classify_spec(key) == "control"@,
{
    reveal_strlit("IF");
    assert("IF"@.len() == 2);
    reveal_strlit("AND");
    assert("AND"@.len() == 3);
    assert("IF"@ != "AND"@);
    reveal_strlit("OR");
    assert("OR"@.len() == 2);
    assert("IF"@[0] == 'I' && "OR"@[0] == 'O');
    assert("IF"@ != "OR"@);
    reveal_strlit("NOT");
    assert("NOT"@.len() == 3);
    assert("IF"@ != "NOT"@);
    reveal_strlit("NAND");
    assert("NAND"@.len() == 4);
    assert("IF"@ != "NAND"@);
    reveal_strlit("NOR");
    assert("NOR"@.len() == 3);
    assert("IF"@ != "NOR"@);
    reveal_strlit("HIDDEN_TRIGGER");
    assert("HIDDEN_TRIGGER"@.len() == 14);
    assert("IF"@ != "HIDDEN_TRIGGER"@);
    reveal_strlit("CUSTOM_TRIGGER_TOOLTIP");
    assert("CUSTOM_TRIGGER_TOOLTIP"@.len() == 22);
    assert("IF"@ != "CUSTOM_TRIGGER_TOOLTIP"@);
}

proof fn lemma_keyword_else_if(key: Seq<char>)
    ensures
        upper_text(key) == "ELSE_IF"@ ==> classify_spec(key) == "control"@,
{
    reveal_strlit("ELSE_IF");
    assert("ELSE_IF"@.len() == 7);
    reveal_strlit("AND");
    assert("AND"@.len() == 3);
    assert("ELSE_IF"@ != "AND"@);
    reveal_strlit("OR");
    assert("OR"@.len() == 2);
    assert("ELSE_IF"@ != "OR"@);
    reveal_strlit("NOT");
    assert("NOT"@.len() == 3);
    assert("ELSE_IF"@ != "NOT"@);
    reveal_strlit("NAND");
    assert("NAND"@.len() == 4);
    assert("ELSE_IF"@ != "NAND"@);
    reveal_strlit("NOR");
    assert("NOR"@.len() == 3);
    assert("ELSE_IF"@ != "NOR"@);
    reveal_strlit("HIDDEN_TRIGGER");
    assert("HIDDEN_TRIGGER"@.len() == 14);
    assert("ELSE_IF"@ != "HIDDEN_TRIGGER"@);
    reveal_strlit("CUSTOM_TRIGGER_TOOLTIP");
    assert("CUSTOM_TRIGGER_TOOLTIP"@.len() == 22);
    assert("ELSE_IF"@ != "CUSTOM_TRIGGER_TOOLTIP"@);
    reveal_strlit("IF");
    assert("IF"@.len() == 2);
    assert("ELSE_IF"@ != "IF"@);
}

proof fn lemma_keyword_else(key: Seq<char>)
    ensures
        upper_text(key) == "ELSE"@ ==> classify_spec(key) == "control"@,
{
    reveal_strlit("ELSE");
    assert("ELSE"@.len() == 4);
    reveal_strlit("AND");
    assert("AND"@.len() == 3);
    assert("ELSE"@ != "AND"@);
    reveal_strlit("OR");
    assert("OR"@.len() == 2);
    assert("ELSE"@ != "OR"@);
    reveal_strlit("NOT");
    assert("NOT"@.len() == 3);
    assert("ELSE"@ != "NOT"@);
    reveal_strlit("NAND");
    assert("NAND"@.len() == 4);
    assert("ELSE"@[0] == 'E' && "NAND"@[0] == 'N');
    assert("ELSE"@ != "NAND"@);
    reveal_strlit("NOR");
    assert("NOR"@.len() == 3);
    assert("ELSE"@ != "NOR"@);
    reveal_strlit("HIDDEN_TRIGGER");
    assert("HIDDEN_TRIGGER"@.len() == 14);
    assert("ELSE"@ != "HIDDEN_TRIGGER"@);
    reveal_strlit("CUSTOM_TRIGGER_TOOLTIP");
    assert("CUSTOM_TRIGGER_TOOLTIP"@.len() == 22);
    assert("ELSE"@ != "CUSTOM_TRIGGER_TOOLTIP"@);
    reveal_strlit("IF");
    assert("IF"@.len() == 2);
    assert("ELSE"@ != "IF"@);
    reveal_strlit("ELSE_IF");
    assert("ELSE_IF"@.len() == 7);
    assert("ELSE"@ != "ELSE_IF"@);
}

proof fn lemma_keyword_while(key: Seq<char>)
    ensures
        upper_text(key) == "WHILE"@ ==> classify_spec(key) == "control"@,
{
    reveal_strlit("WHILE");
    assert("WHILE"@.len() == 5);
    reveal_strlit("AND");
    assert("AND"@.len() == 3);
    assert("WHILE"@ != "AND"@);
    reveal_strlit("OR");
    assert("OR"@.len() == 2);
    assert("WHILE"@ != "OR"@);
    reveal_strlit("NOT");
    assert("NOT"@.len() == 3);
    assert("WHILE"@ != "NOT"@);
    reveal_strlit("NAND");
    assert("NAND"@.len() == 4);
    assert("WHILE"@ != "NAND"@);
    reveal_strlit("NOR");
    assert("NOR"@.len() == 3);
    assert("WHILE"@ != "NOR"@);
    reveal_strlit("HIDDEN_TRIGGER");
    assert("HIDDEN_TRIGGER"@.len() == 14);
    assert("WHILE"@ != "HIDDEN_TRIGGER"@);
    reveal_strlit("CUSTOM_TRIGGER_TOOLTIP");
    assert("CUSTOM_TRIGGER_TOOLTIP"@.len() == 22);
    assert("WHILE"@ != "CUSTOM_TRIGGER_TOOLTIP"@);
    reveal_strlit("IF");
    assert("IF"@.len() == 2);
    assert("WHILE"@ != "IF"@);
    reveal_strlit("ELSE_IF");
    assert("ELSE_IF"@.len() == 7);
    assert("WHILE"@ != "ELSE_IF"@);
    reveal_strlit("ELSE");
    assert("ELSE"@.len() == 4);
    assert("WHILE"@ != "ELSE"@);
}

proof fn lemma_keyword_limit(key: Seq<char>)
    ensures
        upper_text(key) == "LIMIT"@ ==> classify_spec(key) == "limit"@,
{
    reveal_strlit("LIMIT");
    assert("LIMIT"@.len() == 5);
    reveal_strlit("AND");
    assert("AND"@.len() == 3);
    assert("LIMIT"@ != "AND"@);
    reveal_strlit("OR");
    assert("OR"@.len() == 2);
    assert("LIMIT"@ != "OR"@);
    reveal_strlit("NOT");
    assert("NOT"@.len() == 3);
    assert("LIMIT"@ != "NOT"@);
    reveal_strlit("NAND");
    assert("NAND"@.len() == 4);
    assert("LIMIT"@ != "NAND"@);
    reveal_strlit("NOR");
    assert("NOR"@.len() == 3);
    assert("LIMIT"@ != "NOR"@);
    reveal_strlit("HIDDEN_TRIGGER");
    assert("HIDDEN_TRIGGER"@.len() == 14);
    assert("LIMIT"@ != "HIDDEN_TRIGGER"@);
    reveal_strlit("CUSTOM_TRIGGER_TOOLTIP");
    assert("CUSTOM_TRIGGER_TOOLTIP"@.len() == 22);
    assert("LIMIT"@ != "CUSTOM_TRIGGER_TOOLTIP"@);
    reveal_strlit("IF");
    assert("IF"@.len() == 2);
    assert("LIMIT"@ != "IF"@);
    reveal_strlit("ELSE_IF");
    assert("ELSE_IF"@.len() == 7);
    assert("LIMIT"@ != "ELSE_IF"@);
    reveal_strlit("ELSE");
    assert("ELSE"@.len() == 4);
    assert("LIMIT"@ != "ELSE"@);
    reveal_strlit("WHILE");
    assert("WHILE"@.len() == 5);
    assert("LIMIT"@[0] == 'L' && "WHILE"@[0] == 'W');
    assert("LIMIT"@ != "WHILE"@);
}

proof fn lemma_keyword_calc_true_if(key: Seq<char>)
    ensures
        upper_text(key) == "CALC_TRUE_IF"@ ==> classify_spec(key) == "calc"@,
{
    reveal_strlit("CALC_TRUE_IF");
    assert("CALC_TRUE_IF"@.len() == 12);
    reveal_strlit("AND");
    assert("AND"@.len() == 3);
    assert("CALC_TRUE_IF"@ != "AND"@);
    reveal_strlit("OR");
    assert("OR"@.len() == 2);
    assert("CALC_TRUE_IF"@ != "OR"@);
    reveal_strlit("NOT");
    assert("NOT"@.len() == 3);
    assert("CALC_TRUE_IF"@ != "NOT"@);
    reveal_strlit("NAND");
    assert("NAND"@.len() == 4);
    assert("CALC_TRUE_IF"@ != "NAND"@);
    reveal_strlit("NOR");
    assert("NOR"@.len() == 3);
    assert("CALC_TRUE_IF"@ != "NOR"@);
    reveal_strlit("HIDDEN_TRIGGER");
    assert("HIDDEN_TRIGGER"@.len() == 14);
    assert("CALC_TRUE_IF"@ != "HIDDEN_TRIGGER"@);
    reveal_strlit("CUSTOM_TRIGGER_TOOLTIP");
    assert("CUSTOM_TRIGGER_TOOLTIP"@.len() == 22);
    assert("CALC_TRUE_IF"@ != "CUSTOM_TRIGGER_TOOLTIP"@);
    reveal_strlit("IF");
    assert("IF"@.len() == 2);
    assert("CALC_TRUE_IF"@ != "IF"@);
    reveal_strlit("ELSE_IF");
    assert("ELSE_IF"@.len() == 7);
    assert("CALC_TRUE_IF"@ != "ELSE_IF"@);
    reveal_strlit("ELSE");
    assert("ELSE"@.len() == 4);
    assert("CALC_TRUE_IF"@ != "ELSE"@);
    reveal_strlit("WHILE");
    assert("WHILE"@.len() == 5);
    assert("CALC_TRUE_IF"@ != "WHILE"@);
    reveal_strlit("LIMIT");
    assert("LIMIT"@.len() == 5);
    assert("CALC_TRUE_IF"@ != "LIMIT"@);
}

proof fn lemma_keyword_root(key: Seq<char>)
    ensures
        upper_text(key) == "ROOT"@ ==> classify_spec(key) == "scope"@,
{
    reveal_strlit("ROOT");
    assert("ROOT"@.len() == 4);
    reveal_strlit("AND");
    assert("AND"@.len() == 3);
    assert("ROOT"@ != "AND"@);
    reveal_strlit("OR");
    assert("OR"@.len() == 2);
    assert("ROOT"@ != "OR"@);
    reveal_strlit("NOT");
    assert("NOT"@.len() == 3);
    assert("ROOT"@ != "NOT"@);
    reveal_strlit("NAND");
    assert("NAND"@.len() == 4);
    assert("ROOT"@[0] == 'R' && "NAND"@[0] == 'N');
    assert("ROOT"@ != "NAND"@);
    reveal_strlit("NOR");
    assert("NOR"@.len() == 3);
    assert("ROOT"@ != "NOR"@);
    reveal_strlit("HIDDEN_TRIGGER");
    assert("HIDDEN_TRIGGER"@.len() == 14);
    assert("ROOT"@ != "HIDDEN_TRIGGER"@);
    reveal_strlit("CUSTOM_TRIGGER_TOOLTIP");
    assert("CUSTOM_TRIGGER_TOOLTIP"@.len() == 22);
    assert("ROOT"@ != "CUSTOM_TRIGGER_TOOLTIP"@);
    reveal_strlit("IF");
    assert("IF"@.len() == 2);
    assert("ROOT"@ != "IF"@);
    reveal_strlit("ELSE_IF");
    assert("ELSE_IF"@.len() == 7);
    assert("ROOT"@ != "ELSE_IF"@);
    reveal_strlit("ELSE");
    assert("ELSE"@.len() == 4);
    assert("ROOT"@[0] == 'R' && "ELSE"@[0] == 'E');
    assert("ROOT"@ != "ELSE"@);
    reveal_strlit("WHILE");
    assert("WHILE"@.len() == 5);
    assert("ROOT"@ != "WHILE"@);
    reveal_strlit("LIMIT");
    assert("LIMIT"@.len() == 5);
    assert("ROOT"@ != "LIMIT"@);
    reveal_strlit("CALC_TRUE_IF");
    assert("CALC_TRUE_IF"@.len() == 12);
    assert("ROOT"@ != "CALC_TRUE_IF"@);
}

proof fn lemma_keyword_this(key: Seq<char>)
    ensures
        upper_text(key) == "THIS"@ ==> classify_spec(key) == "scope"@,
{
    reveal_strlit("THIS");
    assert("THIS"@.len() == 4);
    reveal_strlit("AND");
    assert("AND"@.len() == 3);
    assert("THIS"@ != "AND"@);
    reveal_strlit("OR");
    assert("OR"@.len() == 2);
    assert("THIS"@ != "OR"@);
    reveal_strlit("NOT");
    assert("NOT"@.len() == 3);
    assert("THIS"@ != "NOT"@);
    reveal_strlit("NAND");
    assert("NAND"@.len() == 4);
    assert("THIS"@[0] == 'T' && "NAND"@[0] == 'N');
    assert("THIS"@ != "NAND"@);
    reveal_strlit("NOR");
    assert("NOR"@.len() == 3);
    assert("THIS"@ != "NOR"@);
    reveal_strlit("HIDDEN_TRIGGER");
    assert("HIDDEN_TRIGGER"@.len() == 14);
    assert("THIS"@ != "HIDDEN_TRIGGER"@);
    reveal_strlit("CUSTOM_TRIGGER_TOOLTIP");
    assert("CUSTOM_TRIGGER_TOOLTIP"@.len() == 22);
    assert("THIS"@ != "CUSTOM_TRIGGER_TOOLTIP"@);
    reveal_strlit("IF");
    assert("IF"@.len() == 2);
    assert("THIS"@ != "IF"@);
    reveal_strlit("ELSE_IF");
    assert("ELSE_IF"@.len() == 7);
    assert("THIS"@ != "ELSE_IF"@);
    reveal_strlit("ELSE");
    assert("ELSE"@.len() == 4);
    assert("THIS"@[0] == 'T' && "ELSE"@[0] == 'E');
    assert("THIS"@ != "ELSE"@);
    reveal_strlit("WHILE");
    assert("WHILE"@.len() == 5);
    assert("THIS"@ != "WHILE"@);
    reveal_strlit("LIMIT");
    assert("LIMIT"@.len() == 5);
    assert("THIS"@ != "LIMIT"@);
    reveal_strlit("CALC_TRUE_IF");
    assert("CALC_TRUE_IF"@.len() == 12);
    assert("THIS"@ != "CALC_TRUE_IF"@);
    reveal_strlit("ROOT");
    assert("ROOT"@.len() == 4);
    assert("THIS"@[0] == 'T' && "ROOT"@[0] == 'R');
    assert("THIS"@ != "ROOT"@);
}

proof fn lemma_keyword_from(key: Seq<char>)
    ensures
        upper_text(key) == "FROM"@ ==> classify_spec(key) == "scope"@,
{
    reveal_strlit("FROM");
    assert("FROM"@.len() == 4);
    reveal_strlit("AND");
    assert("AND"@.len() == 3);
    assert("FROM"@ != "AND"@);
    reveal_strlit("OR");
    assert("OR"@.len() == 2);
    assert("FROM"@ != "OR"@);
    reveal_strlit("NOT");
    assert("NOT"@.len() == 3);
    assert("FROM"@ != "NOT"@);
    reveal_strlit("NAND");
    assert("NAND"@.len() == 4);
    assert("FROM"@[0] == 'F' && "NAND"@[0] == 'N');
    assert("FROM"@ != "NAND"@);
    reveal_strlit("NOR");
    assert("NOR"@.len() == 3);
    assert("FROM"@ != "NOR"@);
    reveal_strlit("HIDDEN_TRIGGER");
    assert("HIDDEN_TRIGGER"@.len() == 14);
    assert("FROM"@ != "HIDDEN_TRIGGER"@);
    reveal_strlit("CUSTOM_TRIGGER_TOOLTIP");
    assert("CUSTOM_TRIGGER_TOOLTIP"@.len() == 22);
    assert("FROM"@ != "CUSTOM_TRIGGER_TOOLTIP"@);
    reveal_strlit("IF");
    assert("IF"@.len() == 2);
    assert("FROM"@ != "IF"@);
    reveal_strlit("ELSE_IF");
    assert("ELSE_IF"@.len() == 7);
    assert("FROM"@ != "ELSE_IF"@);
    reveal_strlit("ELSE");
    assert("ELSE"@.len() == 4);
    assert("FROM"@[0] == 'F' && "ELSE"@[0] == 'E');
    assert("FROM"@ != "ELSE"@);
    reveal_strlit("WHILE");
    assert("WHILE"@.len() == 5);
    assert("FROM"@ != "WHILE"@);
    reveal_strlit("LIMIT");
    assert("LIMIT"@.len() == 5);
    assert("FROM"@ != "LIMIT"@);
    reveal_strlit("CALC_TRUE_IF");
    assert("CALC_TRUE_IF"@.len() == 12);
    assert("FROM"@ != "CALC_TRUE_IF"@);
    reveal_strlit("ROOT");
    assert("ROOT"@.len() == 4);
    assert("FROM"@[0] == 'F' && "ROOT"@[0] == 'R');
    assert("FROM"@ != "ROOT"@);
    reveal_strlit("THIS");
    assert("THIS"@.len() == 4);
    assert("FROM"@[0] == 'F' && "THIS"@[0] == 'T');
    assert("FROM"@ != "THIS"@);
}

proof fn lemma_keyword_prev(key: Seq<char>)
    ensures
        upper_text(key) == "PREV"@ ==> classify_spec(key) == "scope"@,
{
    reveal_strlit("PREV");
    assert("PREV"@.len() == 4);
    reveal_strlit("AND");
    assert("AND"@.len() == 3);
    assert("PREV"@ != "AND"@);
    reveal_strlit("OR");
    assert("OR"@.len() == 2);
    assert("PREV"@ != "OR"@);
    reveal_strlit("NOT");
    assert("NOT"@.len() == 3);
    assert("PREV"@ != "NOT"@);
    reveal_strlit("NAND");
    assert("NAND"@.len() == 4);
    assert("PREV"@[0] == 'P' && "NAND"@[0] == 'N');
    assert("PREV"@ != "NAND"@);
    reveal_strlit("NOR");
    assert("NOR"@.len() == 3);
    assert("PREV"@ != "NOR"@);
    reveal_strlit("HIDDEN_TRIGGER");
    assert("HIDDEN_TRIGGER"@.len() == 14);
    assert("PREV"@ != "HIDDEN_TRIGGER"@);
    reveal_strlit("CUSTOM_TRIGGER_TOOLTIP");
    assert("CUSTOM_TRIGGER_TOOLTIP"@.len() == 22);
    assert("PREV"@ != "CUSTOM_TRIGGER_TOOLTIP"@);
    reveal_strlit("IF");
    assert("IF"@.len() == 2);
    assert("PREV"@ != "IF"@);
    reveal_strlit("ELSE_IF");
    assert("ELSE_IF"@.len() == 7);
    assert("PREV"@ != "ELSE_IF"@);
    reveal_strlit("ELSE");
    assert("ELSE"@.len() == 4);
    assert("PREV"@[0] == 'P' && "ELSE"@[0] == 'E');
    assert("PREV"@ != "ELSE"@);
    reveal_strlit("WHILE");
    assert("WHILE"@.len() == 5);
    assert("PREV"@ != "WHILE"@);
    reveal_strlit("LIMIT");
    assert("LIMIT"@.len() == 5);
    assert("PREV"@ != "LIMIT"@);
    reveal_strlit("CALC_TRUE_IF");
    assert("CALC_TRUE_IF"@.len() == 12);
    assert("PREV"@ != "CALC_TRUE_IF"@);
    reveal_strlit("ROOT");
    assert("ROOT"@.len() == 4);
    assert("PREV"@[0] == 'P' && "ROOT"@[0] == 'R');
    assert("PREV"@ != "ROOT"@);
    reveal_strlit("THIS");
    assert("THIS"@.len() == 4);
    assert("PREV"@[0] == 'P' && "THIS"@[0] == 'T');
    assert("PREV"@ != "THIS"@);
    reveal_strlit("FROM");
    assert("FROM"@.len() == 4);
    assert("PREV"@[0] == 'P' && "FROM"@[0] == 'F');
    assert("PREV"@ != "FROM"@);
}

proof fn lemma_keyword_prev_prev(key: Seq<char>)
    ensures
        upper_text(key) == "PREV_PREV"@ ==> classify_spec(key) == "scope"@,
{
    reveal_strlit("PREV_PREV");
    assert("PREV_PREV"@.len() == 9);
    reveal_strlit("AND");
    assert("AND"@.len() == 3);
    assert("PREV_PREV"@ != "AND"@);
    reveal_strlit("OR");
    assert("OR"@.len() == 2);
    assert("PREV_PREV"@ != "OR"@);
    reveal_strlit("NOT");
    assert("NOT"@.len() == 3);
    assert("PREV_PREV"@ != "NOT"@);
    reveal_strlit("NAND");
    assert("NAND"@.len() == 4);
    assert("PREV_PREV"@ != "NAND"@);
    reveal_strlit("NOR");
    assert("NOR"@.len() == 3);
    assert("PREV_PREV"@ != "NOR"@);
    reveal_strlit("HIDDEN_TRIGGER");
    assert("HIDDEN_TRIGGER"@.len() == 14);
    assert("PREV_PREV"@ != "HIDDEN_TRIGGER"@);
    reveal_strlit("CUSTOM_TRIGGER_TOOLTIP");
    assert("CUSTOM_TRIGGER_TOOLTIP"@.len() == 22);
    assert("PREV_PREV"@ != "CUSTOM_TRIGGER_TOOLTIP"@);
    reveal_strlit("IF");
    assert("IF"@.len() == 2);
    assert("PREV_PREV"@ != "IF"@);
    reveal_strlit("ELSE_IF");
    assert("ELSE_IF"@.len() == 7);
    assert("PREV_PREV"@ != "ELSE_IF"@);
    reveal_strlit("ELSE");
    assert("ELSE"@.len() == 4);
    assert("PREV_PREV"@ != "ELSE"@);
    reveal_strlit("WHILE");
    assert("WHILE"@.len() == 5);
    assert("PREV_PREV"@ != "WHILE"@);
    reveal_strlit("LIMIT");
    assert("LIMIT"@.len() == 5);
    assert("PREV_PREV"@ != "LIMIT"@);
    reveal_strlit("CALC_TRUE_IF");
    assert("CALC_TRUE_IF"@.len() == 12);
    assert("PREV_PREV"@ != "CALC_TRUE_IF"@);
    reveal_strlit("ROOT");
    assert("ROOT"@.len() == 4);
    assert("PREV_PREV"@ != "ROOT"@);
    reveal_strlit("THIS");
    assert("THIS"@.len() == 4);
    assert("PREV_PREV"@ != "THIS"@);
    reveal_strlit("FROM");
    assert("FROM"@.len() == 4);
    assert("PREV_PREV"@ != "FROM"@);
    reveal_strlit("PREV");
    assert("PREV"@.len() == 4);
    assert("PREV_PREV"@ != "PREV"@);
}

proof fn lemma_keyword_prev_prev_prev(key: Seq<char>)
    ensures
        upper_text(key) == "PREV_PREV_PREV"@ ==> classify_spec(key) == "scope"@,
{
    reveal_strlit("PREV_PREV_PREV");
    assert("PREV_PREV_PREV"@.len() == 14);
    reveal_strlit("AND");
    assert("AND"@.len() == 3);
    assert("PREV_PREV_PREV"@ != "AND"@);
    reveal_strlit("OR");
    assert("OR"@.len() == 2);
    assert("PREV_PREV_PREV"@ != "OR"@);
    reveal_strlit("NOT");
    assert("NOT"@.len() == 3);
    assert("PREV_PREV_PREV"@ != "NOT"@);
    reveal_strlit("NAND");
    assert("NAND"@.len() == 4);
    assert("PREV_PREV_PREV"@ != "NAND"@);
    reveal_strlit("NOR");
    assert("NOR"@.len() == 3);
    assert("PREV_PREV_PREV"@ != "NOR"@);
    reveal_strlit("HIDDEN_TRIGGER");
    assert("HIDDEN_TRIGGER"@.len() == 14);
    assert("PREV_PREV_PREV"@[0] == 'P' && "HIDDEN_TRIGGER"@[0] == 'H');
    assert("PREV_PREV_PREV"@ != "HIDDEN_TRIGGER"@);
    reveal_strlit("CUSTOM_TRIGGER_TOOLTIP");
    assert("CUSTOM_TRIGGER_TOOLTIP"@.len() == 22);
    assert("PREV_PREV_PREV"@ != "CUSTOM_TRIGGER_TOOLTIP"@);
    reveal_strlit("IF");
    assert("IF"@.len() == 2);
    assert("PREV_PREV_PREV"@ != "IF"@);
    reveal_strlit("ELSE_IF");
    assert("ELSE_IF"@.len() == 7);
    assert("PREV_PREV_PREV"@ != "ELSE_IF"@);
    reveal_strlit("ELSE");
    assert("ELSE"@.len() == 4);
    assert("PREV_PREV_PREV"@ != "ELSE"@);
    reveal_strlit("WHILE");
    assert("WHILE"@.len() == 5);
    assert("PREV_PREV_PREV"@ != "WHILE"@);
    reveal_strlit("LIMIT");
    assert("LIMIT"@.len() == 5);
    assert("PREV_PREV_PREV"@ != "LIMIT"@);
    reveal_strlit("CALC_TRUE_IF");
    assert("CALC_TRUE_IF"@.len() == 12);
    assert("PREV_PREV_PREV"@ != "CALC_TRUE_IF"@);
    reveal_strlit("ROOT");
    assert("ROOT"@.len() == 4);
    assert("PREV_PREV_PREV"@ != "ROOT"@);
    reveal_strlit("THIS");
    assert("THIS"@.len() == 4);
    assert("PREV_PREV_PREV"@ != "THIS"@);
    reveal_strlit("FROM");
    assert("FROM"@.len() == 4);
    assert("PREV_PREV_PREV"@ != "FROM"@);
    reveal_strlit("PREV");
    assert("PREV"@.len() == 4);
    assert("PREV_PREV_PREV"@ != "PREV"@);
    reveal_strlit("PREV_PREV");
    assert("PREV_PREV"@.len() == 9);
    assert("PREV_PREV_PREV"@ != "PREV_PREV"@);
}

proof fn lemma_keyword_from_from(key: Seq<char>)
    ensures
        upper_text(key) == "FROM_FROM"@ ==> classify_spec(key) == "scope"@,
{
    reveal_strlit("FROM_FROM");
    assert("FROM_FROM"@.len() == 9);
    reveal_strlit("AND");
    assert("AND"@.len() == 3);
    assert("FROM_FROM"@ != "AND"@);
    reveal_strlit("OR");
    assert("OR"@.len() == 2);
    assert("FROM_FROM"@ != "OR"@);
    reveal_strlit("NOT");
    assert("NOT"@.len() == 3);
    assert("FROM_FROM"@ != "NOT"@);
    reveal_strlit("NAND");
    assert("NAND"@.len() == 4);
    assert("FROM_FROM"@ != "NAND"@);
    reveal_strlit("NOR");
    assert("NOR"@.len() == 3);
    assert("FROM_FROM"@ != "NOR"@);
    reveal_strlit("HIDDEN_TRIGGER");
    assert("HIDDEN_TRIGGER"@.len() == 14);
    assert("FROM_FROM"@ != "HIDDEN_TRIGGER"@);
    reveal_strlit("CUSTOM_TRIGGER_TOOLTIP");
    assert("CUSTOM_TRIGGER_TOOLTIP"@.len() == 22);
    assert("FROM_FROM"@ != "CUSTOM_TRIGGER_TOOLTIP"@);
    reveal_strlit("IF");
    assert("IF"@.len() == 2);
    assert("FROM_FROM"@ != "IF"@);
    reveal_strlit("ELSE_IF");
    assert("ELSE_IF"@.len() == 7);
    assert("FROM_FROM"@ != "ELSE_IF"@);
    reveal_strlit("ELSE");
    assert("ELSE"@.len() == 4);
    assert("FROM_FROM"@ != "ELSE"@);
    reveal_strlit("WHILE");
    assert("WHILE"@.len() == 5);
    assert("FROM_FROM"@ != "WHILE"@);
    reveal_strlit("LIMIT");
    assert("LIMIT"@.len() == 5);
    assert("FROM_FROM"@ != "LIMIT"@);
    reveal_strlit("CALC_TRUE_IF");
    assert("CALC_TRUE_IF"@.len() == 12);
    assert("FROM_FROM"@ != "CALC_TRUE_IF"@);
    reveal_strlit("ROOT");
    assert("ROOT"@.len() == 4);
    assert("FROM_FROM"@ != "ROOT"@);
    reveal_strlit("THIS");
    assert("THIS"@.len() == 4);
    assert("FROM_FROM"@ != "THIS"@);
    reveal_strlit("FROM");
    assert("FROM"@.len() == 4);
    assert("FROM_FROM"@ != "FROM"@);
    reveal_strlit("PREV");
    assert("PREV"@.len() == 4);
    assert("FROM_FROM"@ != "PREV"@);
    reveal_strlit("PREV_PREV");
    assert("PREV_PREV"@.len() == 9);
    assert("FROM_FROM"@[0] == 'F' && "PREV_PREV"@[0] == 'P');
    assert("FROM_FROM"@ != "PREV_PREV"@);
    reveal_strlit("PREV_PREV_PREV");
    assert("PREV_PREV_PREV"@.len() == 14);
    assert("FROM_FROM"@ != "PREV_PREV_PREV"@);
}

proof fn lemma_keyword_owner(key: Seq<char>)
    ensures
        upper_text(key) == "OWNER"@ ==> classify_spec(key) == "scope"@,
{
    reveal_strlit("OWNER");
    assert("OWNER"@.len() == 5);
    reveal_strlit("AND");
    assert("AND"@.len() == 3);
    assert("OWNER"@ != "AND"@);
    reveal_strlit("OR");
    assert("OR"@.len() == 2);
    assert("OWNER"@ != "OR"@);
    reveal_strlit("NOT");
    assert("NOT"@.len() == 3);
    assert("OWNER"@ != "NOT"@);
    reveal_strlit("NAND");
    assert("NAND"@.len() == 4);
    assert("OWNER"@ != "NAND"@);
    reveal_strlit("NOR");
    assert("NOR"@.len() == 3);
    assert("OWNER"@ != "NOR"@);
    reveal_strlit("HIDDEN_TRIGGER");
    assert("HIDDEN_TRIGGER"@.len() == 14);
    assert("OWNER"@ != "HIDDEN_TRIGGER"@);
    reveal_strlit("CUSTOM_TRIGGER_TOOLTIP");
    assert("CUSTOM_TRIGGER_TOOLTIP"@.len() == 22);
    assert("OWNER"@ != "CUSTOM_TRIGGER_TOOLTIP"@);
    reveal_strlit("IF");
    assert("IF"@.len() == 2);
    assert("OWNER"@ != "IF"@);
    reveal_strlit("ELSE_IF");
    assert("ELSE_IF"@.len() == 7);
    assert("OWNER"@ != "ELSE_IF"@);
    reveal_strlit("ELSE");
    assert("ELSE"@.len() == 4);
    assert("OWNER"@ != "ELSE"@);
    reveal_strlit("WHILE");
    assert("WHILE"@.len() == 5);
    assert("OWNER"@[0] == 'O' && "WHILE"@[0] == 'W');
    assert("OWNER"@ != "WHILE"@);
    reveal_strlit("LIMIT");
    assert("LIMIT"@.len() == 5);
    assert("OWNER"@[0] == 'O' && "LIMIT"@[0] == 'L');
    assert("OWNER"@ != "LIMIT"@);
    reveal_strlit("CALC_TRUE_IF");
    assert("CALC_TRUE_IF"@.len() == 12);
    assert("OWNER"@ != "CALC_TRUE_IF"@);
    reveal_strlit("ROOT");
    assert("ROOT"@.len() == 4);
    assert("OWNER"@ != "ROOT"@);
    reveal_strlit("THIS");
    assert("THIS"@.len() == 4);
    assert("OWNER"@ != "THIS"@);
    reveal_strlit("FROM");
    assert("FROM"@.len() == 4);
    assert("OWNER"@ != "FROM"@);
    reveal_strlit("PREV");
    assert("PREV"@.len() == 4);
    assert("OWNER"@ != "PREV"@);
    reveal_strlit("PREV_PREV");
    assert("PREV_PREV"@.len() == 9);
    assert("OWNER"@ != "PREV_PREV"@);
    reveal_strlit("PREV_PREV_PREV");
    assert("PREV_PREV_PREV"@.len() == 14);
    assert("OWNER"@ != "PREV_PREV_PREV"@);
    reveal_strlit("FROM_FROM");
    assert("FROM_FROM"@.len() == 9);
    assert("OWNER"@ != "FROM_FROM"@);
}

proof fn lemma_keyword_controller(key: Seq<char>)
    ensures
        upper_text(key) == "CONTROLLER"@ ==> classify_spec(key) == "scope"@,
{
    reveal_strlit("CONTROLLER");
    assert("CONTROLLER"@.len() == 10);
    reveal_strlit("AND");
    assert("AND"@.len() == 3);
    assert("CONTROLLER"@ != "AND"@);
    reveal_strlit("OR");
    assert("OR"@.len() == 2);
    assert("CONTROLLER"@ != "OR"@);
    reveal_strlit("NOT");
    assert("NOT"@.len() == 3);
    assert("CONTROLLER"@ != "NOT"@);
    reveal_strlit("NAND");
    assert("NAND"@.len() == 4);
    assert("CONTROLLER"@ != "NAND"@);
    reveal_strlit("NOR");
    assert("NOR"@.len() == 3);
    assert("CONTROLLER"@ != "NOR"@);
    reveal_strlit("HIDDEN_TRIGGER");
    assert("HIDDEN_TRIGGER"@.len() == 14);
    assert("CONTROLLER"@ != "HIDDEN_TRIGGER"@);
    reveal_strlit("CUSTOM_TRIGGER_TOOLTIP");
    assert("CUSTOM_TRIGGER_TOOLTIP"@.len() == 22);
    assert("CONTROLLER"@ != "CUSTOM_TRIGGER_TOOLTIP"@);
    reveal_strlit("IF");
    assert("IF"@.len() == 2);
    assert("CONTROLLER"@ != "IF"@);
    reveal_strlit("ELSE_IF");
    assert("ELSE_IF"@.len() == 7);
    assert("CONTROLLER"@ != "ELSE_IF"@);
    reveal_strlit("ELSE");
    assert("ELSE"@.len() == 4);
    assert("CONTROLLER"@ != "ELSE"@);
    reveal_strlit("WHILE");
    assert("WHILE"@.len() == 5);
    assert("CONTROLLER"@ != "WHILE"@);
    reveal_strlit("LIMIT");
    assert("LIMIT"@.len() == 5);
    assert("CONTROLLER"@ != "LIMIT"@);
    reveal_strlit("CALC_TRUE_IF");
    assert("CALC_TRUE_IF"@.len() == 12);
    assert("CONTROLLER"@ != "CALC_TRUE_IF"@);
    reveal_strlit("ROOT");
    assert("ROOT"@.len() == 4);
    assert("CONTROLLER"@ != "ROOT"@);
    reveal_strlit("THIS");
    assert("THIS"@.len() == 4);
    assert("CONTROLLER"@ != "THIS"@);
    reveal_strlit("FROM");
    assert("FROM"@.len() == 4);
    assert("CONTROLLER"@ != "FROM"@);
    reveal_strlit("PREV");
    assert("PREV"@.len() == 4);
    assert("CONTROLLER"@ != "PREV"@);
    reveal_strlit("PREV_PREV");
    assert("PREV_PREV"@.len() == 9);
    assert("CONTROLLER"@ != "PREV_PREV"@);
    reveal_strlit("PREV_PREV_PREV");
    assert("PREV_PREV_PREV"@.len() == 14);
    assert("CONTROLLER"@ != "PREV_PREV_PREV"@);
    reveal_strlit("FROM_FROM");
    assert("FROM_FROM"@.len() == 9);
    assert("CONTROLLER"@ != "FROM_FROM"@);
    reveal_strlit("OWNER");
    assert("OWNER"@.len() == 5);
    assert("CONTROLLER"@ != "OWNER"@);
}

proof fn lemma_keyword_emperor(key: Seq<char>)
    ensures
        upper_text(key) == "EMPEROR"@ ==> classify_spec(key) == "scope"@,
{
    reveal_strlit("EMPEROR");
    assert("EMPEROR"@.len() == 7);
    reveal_strlit("AND");
    assert("AND"@.len() == 3);
    assert("EMPEROR"@ != "AND"@);
    reveal_strlit("OR");
    assert("OR"@.len() == 2);
    assert("EMPEROR"@ != "OR"@);
    reveal_strlit("NOT");
    assert("NOT"@.len() == 3);
    assert("EMPEROR"@ != "NOT"@);
    reveal_strlit("NAND");
    assert("NAND"@.len() == 4);
    assert("EMPEROR"@ != "NAND"@);
    reveal_strlit("NOR");
    assert("NOR"@.len() == 3);
    assert("EMPEROR"@ != "NOR"@);
    reveal_strlit("HIDDEN_TRIGGER");
    assert("HIDDEN_TRIGGER"@.len() == 14);
    assert("EMPEROR"@ != "HIDDEN_TRIGGER"@);
    reveal_strlit("CUSTOM_TRIGGER_TOOLTIP");
    assert("CUSTOM_TRIGGER_TOOLTIP"@.len() == 22);
    assert("EMPEROR"@ != "CUSTOM_TRIGGER_TOOLTIP"@);
    reveal_strlit("IF");
    assert("IF"@.len() == 2);
    assert("EMPEROR"@ != "IF"@);
    reveal_strlit("ELSE_IF");
    assert("ELSE_IF"@.len() == 7);
    assert("EMPEROR"@[1] == 'M' && "ELSE_IF"@[1] == 'L');
    assert("EMPEROR"@ != "ELSE_IF"@);
    reveal_strlit("ELSE");
    assert("ELSE"@.len() == 4);
    assert("EMPEROR"@ != "ELSE"@);
    reveal_strlit("WHILE");
    assert("WHILE"@.len() == 5);
    assert("EMPEROR"@ != "WHILE"@);
    reveal_strlit("LIMIT");
    assert("LIMIT"@.len() == 5);
    assert("EMPEROR"@ != "LIMIT"@);
    reveal_strlit("CALC_TRUE_IF");
    assert("CALC_TRUE_IF"@.len() == 12);
    assert("EMPEROR"@ != "CALC_TRUE_IF"@);
    reveal_strlit("ROOT");
    assert("ROOT"@.len() == 4);
    assert("EMPEROR"@ != "ROOT"@);
    reveal_strlit("THIS");
    assert("THIS"@.len() == 4);
    assert("EMPEROR"@ != "THIS"@);
    reveal_strlit("FROM");
    assert("FROM"@.len() == 4);
    assert("EMPEROR"@ != "FROM"@);
    reveal_strlit("PREV");
    assert("PREV"@.len() == 4);
    assert("EMPEROR"@ != "PREV"@);
    reveal_strlit("PREV_PREV");
    assert("PREV_PREV"@.len() == 9);
    assert("EMPEROR"@ != "PREV_PREV"@);
    reveal_strlit("PREV_PREV_PREV");
    assert("PREV_PREV_PREV"@.len() == 14);
    assert("EMPEROR"@ != "PREV_PREV_PREV"@);
    reveal_strlit("FROM_FROM");
    assert("FROM_FROM"@.len() == 9);
    assert("EMPEROR"@ != "FROM_FROM"@);
    reveal_strlit("OWNER");
    assert("OWNER"@.len() == 5);
    assert("EMPEROR"@ != "OWNER"@);
    reveal_strlit("CONTROLLER");
    assert("CONTROLLER"@.len() == 10);
    assert("EMPEROR"@ != "CONTROLLER"@);
}

proof fn lemma_keyword_capital_scope(key: Seq<char>)
    ensures
        upper_text(key) == "CAPITAL_SCOPE"@ ==> classify_spec(key) == "scope"@,
{
    reveal_strlit("CAPITAL_SCOPE");
    assert("CAPITAL_SCOPE"@.len() == 13);
    reveal_strlit("AND");
    assert("AND"@.len() == 3);
    assert("CAPITAL_SCOPE"@ != "AND"@);
    reveal_strlit("OR");
    assert("OR"@.len() == 2);
    assert("CAPITAL_SCOPE"@ != "OR"@);
    reveal_strlit("NOT");
    assert("NOT"@.len() == 3);
    assert("CAPITAL_SCOPE"@ != "NOT"@);
    reveal_strlit("NAND");
    assert("NAND"@.len() == 4);
    assert("CAPITAL_SCOPE"@ != "NAND"@);
    reveal_strlit("NOR");
    assert("NOR"@.len() == 3);
    assert("CAPITAL_SCOPE"@ != "NOR"@);
    reveal_strlit("HIDDEN_TRIGGER");
    assert("HIDDEN_TRIGGER"@.len() == 14);
    assert("CAPITAL_SCOPE"@ != "HIDDEN_TRIGGER"@);
    reveal_strlit("CUSTOM_TRIGGER_TOOLTIP");
    assert("CUSTOM_TRIGGER_TOOLTIP"@.len() == 22);
    assert("CAPITAL_SCOPE"@ != "CUSTOM_TRIGGER_TOOLTIP"@);
    reveal_strlit("IF");
    assert("IF"@.len() == 2);
    assert("CAPITAL_SCOPE"@ != "IF"@);
    reveal_strlit("ELSE_IF");
    assert("ELSE_IF"@.len() == 7);
    assert("CAPITAL_SCOPE"@ != "ELSE_IF"@);
    reveal_strlit("ELSE");
    assert("ELSE"@.len() == 4);
    assert("CAPITAL_SCOPE"@ != "ELSE"@);
    reveal_strlit("WHILE");
    assert("WHILE"@.len() == 5);
    assert("CAPITAL_SCOPE"@ != "WHILE"@);
    reveal_strlit("LIMIT");
    assert("LIMIT"@.len() == 5);
    assert("CAPITAL_SCOPE"@ != "LIMIT"@);
    reveal_strlit("CALC_TRUE_IF");
    assert("CALC_TRUE_IF"@.len() == 12);
    assert("CAPITAL_SCOPE"@ != "CALC_TRUE_IF"@);
    reveal_strlit("ROOT");
    assert("ROOT"@.len() == 4);
    assert("CAPITAL_SCOPE"@ != "ROOT"@);
    reveal_strlit("THIS");
    assert("THIS"@.len() == 4);
    assert("CAPITAL_SCOPE"@ != "THIS"@);
    reveal_strlit("FROM");
    assert("FROM"@.len() == 4);
    assert("CAPITAL_SCOPE"@ != "FROM"@);
    reveal_strlit("PREV");
    assert("PREV"@.len() == 4);
    assert("CAPITAL_SCOPE"@ != "PREV"@);
    reveal_strlit("PREV_PREV");
    assert("PREV_PREV"@.len() == 9);
    assert("CAPITAL_SCOPE"@ != "PREV_PREV"@);
    reveal_strlit("PREV_PREV_PREV");
    assert("PREV_PREV_PREV"@.len() == 14);
    assert("CAPITAL_SCOPE"@ != "PREV_PREV_PREV"@);
    reveal_strlit("FROM_FROM");
    assert("FROM_FROM"@.len() == 9);
    assert("CAPITAL_SCOPE"@ != "FROM_FROM"@);
    reveal_strlit("OWNER");
    assert("OWNER"@.len() == 5);
    assert("CAPITAL_SCOPE"@ != "OWNER"@);
    reveal_strlit("CONTROLLER");
    assert("CONTROLLER"@.len() == 10);
    assert("CAPITAL_SCOPE"@ != "CONTROLLER"@);
    reveal_strlit("EMPEROR");
    assert("EMPEROR"@.len() == 7);
    assert("CAPITAL_SCOPE"@ != "EMPEROR"@);
}

proof fn lemma_keyword_colonial_parent(key: Seq<char>)
    ensures
        upper_text(key) == "COLONIAL_PARENT"@ ==> classify_spec(key) == "scope"@,
{
    reveal_strlit("COLONIAL_PARENT");
    assert("COLONIAL_PARENT"@.len() == 15);
    reveal_strlit("AND");
    assert("AND"@.len() == 3);
    assert("COLONIAL_PARENT"@ != "AND"@);
    reveal_strlit("OR");
    assert("OR"@.len() == 2);
    assert("COLONIAL_PARENT"@ != "OR"@);
    reveal_strlit("NOT");
    assert("NOT"@.len() == 3);
    assert("COLONIAL_PARENT"@ != "NOT"@);
    reveal_strlit("NAND");
    assert("NAND"@.len() == 4);
    assert("COLONIAL_PARENT"@ != "NAND"@);
    reveal_strlit("NOR");
    assert("NOR"@.len() == 3);
    assert("COLONIAL_PARENT"@ != "NOR"@);
    reveal_strlit("HIDDEN_TRIGGER");
    assert("HIDDEN_TRIGGER"@.len() == 14);
    assert("COLONIAL_PARENT"@ != "HIDDEN_TRIGGER"@);
    reveal_strlit("CUSTOM_TRIGGER_TOOLTIP");
    assert("CUSTOM_TRIGGER_TOOLTIP"@.len() == 22);
    assert("COLONIAL_PARENT"@ != "CUSTOM_TRIGGER_TOOLTIP"@);
    reveal_strlit("IF");
    assert("IF"@.len() == 2);
    assert("COLONIAL_PARENT"@ != "IF"@);
    reveal_strlit("ELSE_IF");
    assert("ELSE_IF"@.len() == 7);
    assert("COLONIAL_PARENT"@ != "ELSE_IF"@);
    reveal_strlit("ELSE");
    assert("ELSE"@.len() == 4);
    assert("COLONIAL_PARENT"@ != "ELSE"@);
    reveal_strlit("WHILE");
    assert("WHILE"@.len() == 5);
    assert("COLONIAL_PARENT"@ != "WHILE"@);
    reveal_strlit("LIMIT");
    assert("LIMIT"@.len() == 5);
    assert("COLONIAL_PARENT"@ != "LIMIT"@);
    reveal_strlit("CALC_TRUE_IF");
    assert("CALC_TRUE_IF"@.len() == 12);
    assert("COLONIAL_PARENT"@ != "CALC_TRUE_IF"@);
    reveal_strlit("ROOT");
    assert("ROOT"@.len() == 4);
    assert("COLONIAL_PARENT"@ != "ROOT"@);
    reveal_strlit("THIS");
    assert("THIS"@.len() == 4);
    assert("COLONIAL_PARENT"@ != "THIS"@);
    reveal_strlit("FROM");
    assert("FROM"@.len() == 4);
    assert("COLONIAL_PARENT"@ != "FROM"@);
    reveal_strlit("PREV");
    assert("PREV"@.len() == 4);
    assert("COLONIAL_PARENT"@ != "PREV"@);
    reveal_strlit("PREV_PREV");
    assert("PREV_PREV"@.len() == 9);
    assert("COLONIAL_PARENT"@ != "PREV_PREV"@);
    reveal_strlit("PREV_PREV_PREV");
    assert("PREV_PREV_PREV"@.len() == 14);
    assert("COLONIAL_PARENT"@ != "PREV_PREV_PREV"@);
    reveal_strlit("FROM_FROM");
    assert("FROM_FROM"@.len() == 9);
    assert("COLONIAL_PARENT"@ != "FROM_FROM"@);
    reveal_strlit("OWNER");
    assert("OWNER"@.len() == 5);
    assert("COLONIAL_PARENT"@ != "OWNER"@);
    reveal_strlit("CONTROLLER");
    assert("CONTROLLER"@.len() == 10);
    assert("COLONIAL_PARENT"@ != "CONTROLLER"@);
    reveal_strlit("EMPEROR");
    assert("EMPEROR"@.len() == 7);
    assert("COLONIAL_PARENT"@ != "EMPEROR"@);
    reveal_strlit("CAPITAL_SCOPE");
    assert("CAPITAL_SCOPE"@.len() == 13);
    assert("COLONIAL_PARENT"@ != "CAPITAL_SCOPE"@);
}

pub fn classify_group(key: &str) -> (r: &'static str)
    ensures
        r@ == classify_spec(key@),
{
    let cs = chars_of(key);
    let up = upper_chars(cs.as_slice());
    let u = up.as_slice();
    if chars_eq_str(u, "AND") {
        return "and";
    }
    if chars_eq_str(u, "OR") {
        return "or";
    }
    if chars_eq_str(u, "NOT") {
        return "not";
    }
    if chars_eq_str(u, "NAND") {
        return "nand";
    }
    if chars_eq_str(u, "NOR") {
        return "nor";
    }
    if chars_eq_str(u, "HIDDEN_TRIGGER") {
        return "hidden";
    }
    if chars_eq_str(u, "CUSTOM_TRIGGER_TOOLTIP") {
        return "tooltip";
    }
    if chars_eq_str(u, "IF") || chars_eq_str(u, "ELSE_IF") || chars_eq_str(u, "ELSE") || chars_eq_str(u, "WHILE") {
        return "control";
    }
    if chars_eq_str(u, "LIMIT") {
        return "limit";
    }
    if chars_eq_str(u, "CALC_TRUE_IF") {
        return "calc";
    }
    if chars_eq_str(u, "ROOT") || chars_eq_str(u, "THIS") || chars_eq_str(u, "FROM") || chars_eq_str(u, "PREV")
        || chars_eq_str(u, "PREV_PREV") || chars_eq_str(u, "PREV_PREV_PREV") || chars_eq_str(u, "FROM_FROM")
        || chars_eq_str(u, "OWNER") || chars_eq_str(u, "CONTROLLER") || chars_eq_str(u, "EMPEROR")
        || chars_eq_str(u, "CAPITAL_SCOPE") || chars_eq_str(u, "COLONIAL_PARENT") {
        return "scope";
    }
    let low = lower_chars(cs.as_slice());
    let l = low.as_slice();
    if chars_start_with(l, "any_") || chars_start_with(l, "all_") || chars_start_with(l, "every_")
        || chars_start_with(l, "random_") {
        "quantifier"
    } else if cs.len() == 3 && all_upper_or_digit(cs.as_slice()) {
        "scope"
    } else if cs.len() > 0 && all_digit_chars(cs.as_slice()) {
        "scope"
    } else {
        ""
    }
}

// ---------------------------------------------------------------------------
// Value typing
// ---------------------------------------------------------------------------

/// `char::is_whitespace`: the Unicode `White_Space` characters.
pub open spec fn is_uni_ws(c: char) -> bool {
    let n = c as u32;
    (9 <= n <= 13) || n == 32 || n == 0x85 || n == 0xA0 || n == 0x1680 || (0x2000 <= n <= 0x200A)
        || n == 0x2028 || n == 0x2029 || n == 0x202F || n == 0x205F || n == 0x3000
}

pub(crate) fn is_uni_ws_exec(c: char) -> (r: bool)
    ensures
        r == is_uni_ws(c),
{
    let n = c as u32;
    (9 <= n && n <= 13) || n == 32 || n == 0x85 || n == 0xA0 || n == 0x1680 || (0x2000 <= n && n <= 0x200A)
        || n == 0x2028 || n == 0x2029 || n == 0x202F || n == 0x205F || n == 0x3000
}

/// First index at or after `i` whose char is not whitespace (or quote, when
/// `quote`), else the length.
pub open spec fn lead_end(s: Seq<char>, i: int, quote: bool) -> int
    decreases s.len() - i,
{
    if i < 0 || i >= s.len() {
        i
    } else if (quote && s[i] == '"') || (!quote && is_uni_ws(s[i])) {
        lead_end(s, i + 1, quote)
    } else {
        i
    }
}

/// One past the last index before `j` whose char is not whitespace (or
/// quote, when `quote`), else 0.
pub open spec fn trail_start(s: Seq<char>, j: int, quote: bool) -> int
    decreases j,
{
    if j <= 0 || j > s.len() {
        j
    } else if (quote && s[j - 1] == '"') || (!quote && is_uni_ws(s[j - 1])) {
        trail_start(s, j - 1, quote)
    } else {
        j
    }
}

/// `str::trim` (`quote == false`) or `str::trim_matches('"')` (`quote == true`).
pub open spec fn trim_spec(s: Seq<char>, quote: bool) -> Seq<char> {
    let a = lead_end(s, 0, quote);
    let b = trail_start(s, s.len() as int, quote);
    if a >= b {
        Seq::empty()
    } else {
        s.subrange(a, b)
    }
}

proof fn lemma_lead_end(s: Seq<char>, i: int, quote: bool)
    requires
        0 <= i <= s.len(),
    ensures
        i <= lead_end(s, i, quote) <= s.len(),
    decreases s.len() - i,
{
    if i < s.len() && ((quote && s[i] == '"') || (!quote && is_uni_ws(s[i]))) {
        lemma_lead_end(s, i + 1, quote);
    }
}

proof fn lemma_trail_start(s: Seq<char>, j: int, quote: bool)
    requires
        0 <= j <= s.len(),
    ensures
        0 <= trail_start(s, j, quote) <= j,
    decreases j,
{
    if j > 0 && ((quote && s[j - 1] == '"') || (!quote && is_uni_ws(s[j - 1]))) {
        lemma_trail_start(s, j - 1, quote);
    }
}

pub(crate) fn trim_chars(s: &[char], quote: bool) -> (r: Vec<char>)
    ensures
        r@ == trim_spec(s@, quote),
{
    proof {
        lemma_lead_end(s@, 0, quote);
        lemma_trail_start(s@, s@.len() as int, quote);
    }
    let mut a: usize = 0;
    while a < s.len() && ((quote && s[a] == '"') || (!quote && is_uni_ws_exec(s[a])))
        invariant
            a <= s@.len(),
            lead_end(s@, a as int, quote) == lead_end(s@, 0, quote),
        decreases s@.len() - a,
    {
        a = a + 1;
    }
    let mut b: usize = s.len();
    while b > 0 && ((quote && s[b - 1] == '"') || (!quote && is_uni_ws_exec(s[b - 1])))
        invariant
            b <= s@.len(),
            trail_start(s@, b as int, quote) == trail_start(s@, s@.len() as int, quote),
        decreases b,
    {
        b = b - 1;
    }
    if a >= b {
        Vec::new()
    } else {
        vstd::slice::slice_to_vec(&s[a..b])
    }
}

pub open spec fn all_digits_chars(s: Seq<char>) -> bool {
    forall|i: int| 0 <= i < s.len() ==> is_digit_char(#[trigger] s[i])
}

/// Index of the first `c` in `s`, if any.
pub open spec fn index_of(s: Seq<char>, c: char, i: int) -> Option<int>
    decreases s.len() - i,
{
    if i < 0 || i >= s.len() {
        None
    } else if s[i] == c {
        Some(i)
    } else {
        index_of(s, c, i + 1)
    }
}

/// `Digit+ | Digit+ '.' Digit* | Digit* '.' Digit+`.
pub open spec fn is_mantissa(m: Seq<char>) -> bool {
    match index_of(m, '.', 0) {
        None => m.len() > 0 && all_digits_chars(m),
        Some(k) => all_digits_chars(m.subrange(0, k)) && all_digits_chars(m.subrange(k + 1, m.len() as int))
            && (k > 0 || m.len() - k - 1 > 0),
    }
}

/// `Sign? Digit+`.
pub open spec fn is_exp_digits(t: Seq<char>) -> bool {
    let d = if t.len() > 0 && (t[0] == '+' || t[0] == '-') {
        t.drop_first()
    } else {
        t
    };
    d.len() > 0 && all_digits_chars(d)
}

/// `Number ::= Mantissa ('e' Sign? Digit+)?` over lower-cased text.
pub open spec fn is_number_text(b: Seq<char>) -> bool {
    match index_of(b, 'e', 0) {
        None => is_mantissa(b),
        Some(k) => is_mantissa(b.subrange(0, k)) && is_exp_digits(b.subrange(k + 1, b.len() as int)),
    }
}

/// Whether `str::parse::<f64>` accepts the text: the documented grammar
/// `Sign? ('inf' | 'infinity' | 'nan' | Number)`, applied to the lower-cased text.
pub open spec fn is_float_text(s: Seq<char>) -> bool {
    let l = lower_text(s);
    let b = if l.len() > 0 && (l[0] == '+' || l[0] == '-') {
        l.drop_first()
    } else {
        l
    };
    b == "inf"@ || b == "infinity"@ || b == "nan"@ || is_number_text(b)
}

proof fn lemma_index_of(s: Seq<char>, c: char, i: int)
    requires
        0 <= i,
    ensures
        index_of(s, c, i) matches Some(k) ==> i <= k < s.len() && s[k] == c,
    decreases s.len() - i,
{
    if i < s.len() && s[i] != c {
        lemma_index_of(s, c, i + 1);
    }
}

fn find_char(s: &[char], c: char) -> (r: Option<usize>)
    ensures
        index_of(s@, c, 0) matches Some(k) ==> 0 <= k < s@.len(),
        r == match index_of(s@, c, 0) {
            Some(k) => Some(k as usize),
            None => None::<usize>,
        },
        r matches Some(k) ==> k < s@.len(),
{
    proof {
        lemma_index_of(s@, c, 0);
    }
    let mut i: usize = 0;
    while i < s.len()
        invariant
            i <= s@.len(),
            index_of(s@, c, i as int) == index_of(s@, c, 0),
        decreases s@.len() - i,
    {
        if s[i] == c {
            return Some(i);
        }
        i = i + 1;
    }
    None
}

fn mantissa_ok(m: &[char]) -> (r: bool)
    ensures
        r == is_mantissa(m@),
{
    match find_char(m, '.') {
        None => m.len() > 0 && all_digit_chars(m),
        Some(k) => {
            let n = m.len();
            let a = all_digit_chars(&m[0..k]);
            let b = all_digit_chars(&m[k + 1..n]);
            let nonempty = k > 0 || n - k - 1 > 0;
            a && b && nonempty
        },
    }
}

fn exp_ok(t: &[char]) -> (r: bool)
    ensures
        r == is_exp_digits(t@),
{
    let d = if t.len() > 0 && (t[0] == '+' || t[0] == '-') {
        &t[1..t.len()]
    } else {
        t
    };
    assert(d@ == (if t@.len() > 0 && (t@[0] == '+' || t@[0] == '-') { t@.drop_first() } else { t@ }));
    d.len() > 0 && all_digit_chars(d)
}

pub fn float_ok(s: &[char]) -> (r: bool)
    ensures
        r == is_float_text(s@),
{
    let low = lower_chars(s);
    let l = low.as_slice();
    let b = if l.len() > 0 && (l[0] == '+' || l[0] == '-') {
        &l[1..l.len()]
    } else {
        l
    };
    assert(b@ == (if l@.len() > 0 && (l@[0] == '+' || l@[0] == '-') { l@.drop_first() } else { l@ }));
    if chars_eq_str(b, "inf") || chars_eq_str(b, "infinity") || chars_eq_str(b, "nan") {
        return true;
    }
    match find_char(b, 'e') {
        None => mantissa_ok(b),
        Some(k) => {
            let n = b.len();
            let x = mantissa_ok(&b[0..k]);
            let y = exp_ok(&b[k + 1..n]);
            x && y
        },
    }
}

/// The kind and text of a scalar value's raw text (quotes included for
/// quoted strings).
pub open spec fn type_value_spec(raw: Seq<char>) -> (Seq<char>, Seq<char>) {
    let s = trim_spec(raw, false);
    if s.len() > 0 && s[0] == '"' {
        ("string"@, trim_spec(s, true))
    } else {
        let lower = lower_text(s);
        let kind = if lower == "yes"@ || lower == "no"@ {
            "bool"@
        } else if is_float_text(s) {
            "number"@
        } else if s == "ROOT"@ || s == "THIS"@ || s == "FROM"@ || s == "PREV"@ || s == "PREV_PREV"@
            || s == "FROM_FROM"@ || s == "OWNER"@ || s == "CONTROLLER"@ || s == "EMPEROR"@ {
            "scope"@
        } else if is_tag_text(s) {
            "tag"@
        } else {
            "string"@
        };
        (kind, s)
    }
}

/// Types a scalar value's raw text.
fn type_value(raw: &str) -> (r: TypedValue)
    ensures
        r.tview() == type_value_spec(raw@),
{
    let cs = chars_of(raw);
    let sv = trim_chars(cs.as_slice(), false);
    let s = sv.as_slice();
    if s.len() > 0 && s[0] == '"' {
        let t = trim_chars(s, true);
        return TypedValue { kind: String::from_str("string"), text: string_from_chars(t.as_slice()) };
    }
    let low = lower_chars(s);
    let kind = if chars_eq_str(low.as_slice(), "yes") || chars_eq_str(low.as_slice(), "no") {
        "bool"
    } else if float_ok(s) {
        "number"
    } else if chars_eq_str(s, "ROOT") || chars_eq_str(s, "THIS") || chars_eq_str(s, "FROM") || chars_eq_str(s, "PREV")
        || chars_eq_str(s, "PREV_PREV") || chars_eq_str(s, "FROM_FROM") || chars_eq_str(s, "OWNER")
        || chars_eq_str(s, "CONTROLLER") || chars_eq_str(s, "EMPEROR") {
        "scope"
    } else if s.len() == 3 && all_upper_or_digit(s) {
        "tag"
    } else {
        "string"
    };
    TypedValue { kind: String::from_str(kind), text: string_from_chars(s) }
}

// ---------------------------------------------------------------------------
// Tree building
// ---------------------------------------------------------------------------

/// The decoded text of bytes `[span.0, span.1)` of `src`.
pub open spec fn slice_text(src: Seq<u8>, span: (usize, usize)) -> Seq<char> {
    lossy_utf8(src.subrange(span.0 as int, span.1 as int))
}

/// Spans given by `block_children` lie inside `src`, value inside statement.
pub open spec fn span_in(src: Seq<u8>, c: SpanView) -> bool {
    &&& c.stmt_span.0 <= c.stmt_span.1 <= src.len()
    &&& c.value_span.0 <= c.value_span.1 <= src.len()
}

/// The node built for the child `c` of the block at path `parent`.
pub open spec fn node_spec(src: Seq<u8>, parent: Seq<Seq<char>>, c: SpanView) -> NodeView
    decreases src.len(), 0int,
{
    let raw = slice_text(src, c.stmt_span);
    let vtext = slice_text(src, c.value_span);
    match c.key {
        None => if c.is_block {
            NodeView {
                node_type: "group"@,
                key: None,
                path: Seq::empty(),
                group_kind: "anonymous"@,
                value: None,
                children: Seq::empty(),
                raw,
            }
        } else {
            NodeView {
                node_type: "leaf"@,
                key: None,
                path: Seq::empty(),
                group_kind: Seq::empty(),
                value: Some(type_value_spec(vtext)),
                children: Seq::empty(),
                raw,
            }
        },
        Some(key) => if c.is_block {
            let kind = classify_spec(key);
            let path = parent.push(segment_spec(key, c.occurrence));
            if kind.len() == 0 {
                NodeView {
                    node_type: "leaf"@,
                    key: Some(key),
                    path,
                    group_kind: Seq::empty(),
                    value: Some(("block"@, vtext)),
                    children: Seq::empty(),
                    raw,
                }
            } else {
                let (s, e) = (c.value_span.0 as int, c.value_span.1 as int);
                let children = if s < 0 || e <= s + 1 || e > src.len() || src[s] != 123 || src[e - 1] != 125 {
                    Seq::empty()
                } else {
                    let interior = src.subrange(s + 1, e - 1);
                    match child_spans(interior, Seq::empty()) {
                        None => Seq::empty(),
                        Some(sp) => nodes_from(interior, path, sp, 0),
                    }
                };
                NodeView {
                    node_type: "group"@,
                    key: Some(key),
                    path,
                    group_kind: kind,
                    value: None,
                    children,
                    raw,
                }
            }
        } else {
            NodeView {
                node_type: "leaf"@,
                key: Some(key),
                path: parent.push(key),
                group_kind: Seq::empty(),
                value: Some(type_value_spec(vtext)),
                children: Seq::empty(),
                raw,
            }
        },
    }
}

/// The nodes of the children `spans[i..]` of the block at path `parent`.
pub open spec fn nodes_from(src: Seq<u8>, parent: Seq<Seq<char>>, spans: Seq<SpanView>, i: int) -> Seq<NodeView>
    decreases src.len(), spans.len() - i + 1,
{
    if i < 0 || i >= spans.len() {
        Seq::empty()
    } else {
        seq![node_spec(src, parent, spans[i])] + nodes_from(src, parent, spans, i + 1)
    }
}

proof fn lemma_nodes_from_index(src: Seq<u8>, parent: Seq<Seq<char>>, spans: Seq<SpanView>, i: int, j: int)
    requires
        0 <= i <= j < spans.len(),
    ensures
        nodes_from(src, parent, spans, i).len() == spans.len() - i,
        nodes_from(src, parent, spans, i)[j - i] == node_spec(src, parent, spans[j]),
    decreases spans.len() - i,
{
    if i < j {
        lemma_nodes_from_index(src, parent, spans, i + 1, j);
    }
    lemma_nodes_from_len(src, parent, spans, i);
}

proof fn lemma_nodes_from_len(src: Seq<u8>, parent: Seq<Seq<char>>, spans: Seq<SpanView>, i: int)
    requires
        0 <= i <= spans.len(),
    ensures
        nodes_from(src, parent, spans, i).len() == spans.len() - i,
    decreases spans.len() - i,
{
    if i < spans.len() {
        lemma_nodes_from_len(src, parent, spans, i + 1);
    }
}

/// A leaf's path addresses it: the `j`th node that `build_nodes(src, root)`
/// gives for a `key = value` statement is a leaf whose path is `root ++
/// [key]`, and `SetScalar` with that path rewrites exactly its value token,
/// when no earlier scalar sibling has the same key ignoring ASCII case and the
/// new value is Latin-1.
pub proof fn lemma_leaf_path_addresses(src: Seq<u8>, root: Seq<String>, j: int, value: Seq<char>, quoted: bool)
    requires
        src.len() <= usize::MAX,
        locate(src, tokens(src), string_path(root)) is Some,
        0 <= j < located_children(src, string_path(root)).len(),
        located_children(src, string_path(root))[j].key is Some,
        located_children(src, string_path(root))[j].val is Scalar,
        forall|i: int|
            0 <= i < j ==> !is_scalar_named(
                src,
                #[trigger] located_children(src, string_path(root))[i],
                key_bytes(src, located_children(src, string_path(root))[j]),
            ),
        is_latin1(value),
    ensures
        ({
            let kb = key_bytes(src, located_children(src, string_path(root))[j]);
            let n = nodes_spec(src, root)[j];
            &&& j < nodes_spec(src, root).len()
            &&& n.node_type == "leaf"@
            &&& n.key == Some(lossy_utf8(kb))
            &&& n.path == strings_view(root).push(lossy_utf8(kb))
            &&& child_spans(src, string_path(root)) matches Some(sp)
            &&& set_scalar_spec(src, string_path(root).push(kb), value, quoted) == Ok::<Seq<u8>, Seq<char>>(
                splice(
                    src,
                    sp[j].value_span.0 as int,
                    sp[j].value_span.1 as int,
                    quoted_bytes(latin1_bytes(value), quoted),
                ),
            )
        }),
{
    lemma_scalar_path_addresses(src, string_path(root), j, value, quoted);
    let sp = child_spans(src, string_path(root))->0;
    lemma_nodes_from_index(src, strings_view(root), sp, 0, j);
}

/// A block node's path addresses it: the `j`th node that `build_nodes(src,
/// root)` gives for a closed `key = { ... }` block carries the path `root ++
/// [key#n]` (the bare key for the first occurrence), and the occurrence `n` is
/// exactly what resolves `root ++ [key#n]` to that block, when no sibling
/// block's key equals it ignoring ASCII case without being the same key.
pub proof fn lemma_block_path_addresses(src: Seq<u8>, root: Seq<String>, j: int)
    requires
        src.len() <= usize::MAX,
        locate(src, tokens(src), string_path(root)) is Some,
        0 <= j < located_children(src, string_path(root)).len(),
        located_children(src, string_path(root))[j].key is Some,
        located_children(src, string_path(root))[j].val is Block,
        tokens(src)[located_children(src, string_path(root))[j].val->Block_1 as int] is Close,
        key_unambiguous(src, located_children(src, string_path(root)), j),
    ensures
        ({
            let kb = key_bytes(src, located_children(src, string_path(root))[j]);
            let n = nodes_spec(src, root)[j];
            &&& j < nodes_spec(src, root).len()
            &&& child_spans(src, string_path(root)) matches Some(sp)
            &&& n.key == Some(lossy_utf8(kb))
            &&& n.path == strings_view(root).push(segment_spec(lossy_utf8(kb), sp[j].occurrence))
            &&& block_span_spec(src, string_path(root).push(occ_segment(kb, sp[j].occurrence)))
                == Some(sp[j].value_span)
        }),
{
    lemma_occurrence_addressing(src, string_path(root), j);
    let sp = child_spans(src, string_path(root))->0;
    lemma_nodes_from_index(src, strings_view(root), sp, 0, j);
}

/// The direct child nodes of the block addressed by `root`.
pub open spec fn nodes_spec(src: Seq<u8>, root: Seq<String>) -> Seq<NodeView> {
    match child_spans(src, string_path(root)) {
        None => Seq::empty(),
        Some(sp) => nodes_from(src, strings_view(root), sp, 0),
    }
}

fn slice_string(src: &[u8], span: (usize, usize)) -> (r: String)
    requires
        span.0 <= span.1 <= src@.len(),
    ensures
        r@ == slice_text(src@, span),
{
    lossy_string(&src[span.0..span.1])
}

fn push_path(parent: &Vec<String>, seg: String) -> (r: Vec<String>)
    ensures
        strings_view(r@) == strings_view(parent@).push(seg@),
{
    let mut p = clone_strings(parent);
    p.push(seg);
    assert(strings_view(p@) =~= strings_view(parent@).push(seg@));
    p
}

/// Spans returned by `block_children` lie inside the source.
pub open spec fn spans_in(src: Seq<u8>, v: Seq<ChildSpan>) -> bool {
    forall|j: int| 0 <= j < v.len() ==> span_in(src, (#[trigger] v[j]).sview())
}

fn children_of(src: &[u8], path: &[String]) -> (r: Option<Vec<ChildSpan>>)
    ensures
        r is None <==> child_spans(src@, string_path(path@)) is None,
        r matches Some(v) ==> child_spans(src@, string_path(path@)) == Some(spans_view(v@)) && spans_in(src@, v@),
{
    let r = block_children(src, path);
    proof {
        if r is Some {
            let v = r->0;
            assert forall|j: int| 0 <= j < v@.len() implies span_in(src@, (#[trigger] v@[j]).sview()) by {
                let c = v@[j];
                assert(c.stmt_span.0 < c.stmt_span.1 <= src@.len());
            }
        }
    }
    r
}

/// Builds the child nodes of a group whose braces-inclusive `value_span` is
/// already known, by lexing only that span's interior. A span that is not
/// brace-shaped (an unterminated block) has no child nodes.
fn build_nodes_in_block(src: &[u8], value_span: (usize, usize), path: &Vec<String>) -> (r: Vec<TreeNode>)
    ensures
        nodes_view(r@) == ({
            let (s, e) = (value_span.0 as int, value_span.1 as int);
            if e <= s + 1 || e > src@.len() || src@[s] != 123 || src@[e - 1] != 125 {
                Seq::empty()
            } else {
                let interior = src@.subrange(s + 1, e - 1);
                match child_spans(interior, Seq::empty()) {
                    None => Seq::empty(),
                    Some(sp) => nodes_from(interior, strings_view(path@), sp, 0),
                }
            }
        }),
    decreases src@.len(), 1int,
{
    let (s, e) = value_span;
    if e <= s || e - s <= 1 || e > src.len() || src[s] != 123 || src[e - 1] != 125 {
        return Vec::new();
    }
    let interior = &src[s + 1..e - 1];
    let empty: Vec<String> = Vec::new();
    assert(string_path(empty@) =~= Seq::<Seq<u8>>::empty());
    let kids = match children_of(interior, empty.as_slice()) {
        Some(k) => k,
        None => return Vec::new(),
    };
    let ghost sp = spans_view(kids@);
    let mut out: Vec<TreeNode> = Vec::new();
    let mut j: usize = 0;
    while j < kids.len()
        invariant
            j <= kids@.len(),
            sp == spans_view(kids@),
            spans_in(interior@, kids@),
            interior@.len() < src@.len(),
            nodes_view(out@) + nodes_from(interior@, strings_view(path@), sp, j as int) == nodes_from(interior@, strings_view(path@), sp, 0),
        decreases kids@.len() - j,
    {
        assert(span_in(interior@, kids@[j as int].sview()));
        let node = build_node(interior, path, &kids[j]);
        proof {
            lemma_nodes_view_push(out@, node);
            assert(sp[j as int] == kids@[j as int].sview());
        }
        let ghost before = nodes_view(out@);
        out.push(node);
        assert(nodes_view(out@) + nodes_from(interior@, strings_view(path@), sp, j + 1) =~= before + nodes_from(interior@, strings_view(path@), sp, j as int));
        j = j + 1;
    }
    assert(nodes_view(out@) + Seq::<NodeView>::empty() =~= nodes_view(out@));
    out
}

fn build_node(src: &[u8], parent_path: &Vec<String>, c: &ChildSpan) -> (r: TreeNode)
    requires
        span_in(src@, c.sview()),
    ensures
        r.nview() == node_spec(src@, strings_view(parent_path@), c.sview()),
    decreases src@.len(), 2int,
{
    let raw = slice_string(src, c.stmt_span);
    match &c.key {
        None => {
            let no_path: Vec<String> = Vec::new();
            assert(strings_view(no_path@) =~= Seq::<Seq<char>>::empty());
            if c.is_block {
                TreeNode {
                    node_type: String::from_str("group"),
                    key: None,
                    path: no_path,
                    group_kind: String::from_str("anonymous"),
                    value: None,
                    children: Vec::new(),
                    raw,
                }
            } else {
                let v = slice_string(src, c.value_span);
                TreeNode {
                    node_type: String::from_str("leaf"),
                    key: None,
                    path: no_path,
                    group_kind: String::new(),
                    value: Some(type_value(v.as_str())),
                    children: Vec::new(),
                    raw,
                }
            }
        },
        Some(key) => {
            if c.is_block {
                let kind = classify_group(key.as_str());
                let path = push_path(parent_path, segment(key.as_str(), c.occurrence));
                let kc = chars_of(kind);
                if kc.len() == 0 {
                    let v = slice_string(src, c.value_span);
                    TreeNode {
                        node_type: String::from_str("leaf"),
                        key: Some(key.clone()),
                        path,
                        group_kind: String::new(),
                        value: Some(TypedValue { kind: String::from_str("block"), text: v }),
                        children: Vec::new(),
                        raw,
                    }
                } else {
                    let children = build_nodes_in_block(src, c.value_span, &path);
                    TreeNode {
                        node_type: String::from_str("group"),
                        key: Some(key.clone()),
                        path,
                        group_kind: String::from_str(kind),
                        value: None,
                        children,
                        raw,
                    }
                }
            } else {
                let path = push_path(parent_path, key.clone());
                let v = slice_string(src, c.value_span);
                TreeNode {
                    node_type: String::from_str("leaf"),
                    key: Some(key.clone()),
                    path,
                    group_kind: String::new(),
                    value: Some(type_value(v.as_str())),
                    children: Vec::new(),
                    raw,
                }
            }
        },
    }
}

/// Builds the direct child nodes of the block addressed by `root_path`.
pub fn build_nodes(src: &[u8], root_path: &[String]) -> (r: Vec<TreeNode>)
    ensures
        nodes_view(r@) == nodes_spec(src@, root_path@),
{
    let kids = match children_of(src, root_path) {
        Some(k) => k,
        None => return Vec::new(),
    };
    let mut parent: Vec<String> = Vec::new();
    let mut i: usize = 0;
    while i < root_path.len()
        invariant
            i <= root_path@.len(),
            parent@ == root_path@.subrange(0, i as int),
        decreases root_path@.len() - i,
    {
        parent.push(root_path[i].clone());
        assert(parent@ =~= root_path@.subrange(0, i + 1));
        i = i + 1;
    }
    assert(parent@ =~= root_path@);
    let ghost sp = spans_view(kids@);
    let mut out: Vec<TreeNode> = Vec::new();
    let mut j: usize = 0;
    while j < kids.len()
        invariant
            j <= kids@.len(),
            sp == spans_view(kids@),
            spans_in(src@, kids@),
            parent@ == root_path@,
            nodes_view(out@) + nodes_from(src@, strings_view(parent@), sp, j as int) == nodes_from(src@, strings_view(parent@), sp, 0),
        decreases kids@.len() - j,
    {
        assert(span_in(src@, kids@[j as int].sview()));
        let node = build_node(src, &parent, &kids[j]);
        proof {
            lemma_nodes_view_push(out@, node);
            assert(sp[j as int] == kids@[j as int].sview());
        }
        let ghost before = nodes_view(out@);
        out.push(node);
        assert(nodes_view(out@) + nodes_from(src@, strings_view(parent@), sp, j + 1) =~= before + nodes_from(src@, strings_view(parent@), sp, j as int));
        j = j + 1;
    }
    assert(nodes_view(out@) + Seq::<NodeView>::empty() =~= nodes_view(out@));
    out
}

/// The child trees of every top-level `key = { … }` child from `spans[i..]`.
pub open spec fn top_level_from(src: Seq<u8>, spans: Seq<SpanView>, i: int) -> Seq<(Seq<char>, Seq<NodeView>)>
    decreases spans.len() - i,
{
    if i < 0 || i >= spans.len() {
        Seq::empty()
    } else {
        let c = spans[i];
        let rest = top_level_from(src, spans, i + 1);
        if c.key is Some && c.is_block {
            let key = c.key->0;
            let (s, e) = (c.value_span.0 as int, c.value_span.1 as int);
            let nodes = if e <= s + 1 || e > src.len() || src[s] != 123 || src[e - 1] != 125 {
                Seq::empty()
            } else {
                let interior = src.subrange(s + 1, e - 1);
                match child_spans(interior, Seq::empty()) {
                    None => Seq::empty(),
                    Some(sp) => nodes_from(interior, seq![key], sp, 0),
                }
            };
            seq![(key, nodes)] + rest
        } else {
            rest
        }
    }
}

pub open spec fn trees_view(v: Seq<(String, Vec<TreeNode>)>) -> Seq<(Seq<char>, Seq<NodeView>)> {
    v.map_values(|p: (String, Vec<TreeNode>)| (p.0@, nodes_view(p.1@)))
}

/// The child trees of every top-level `key = { … }` block in `src`, in file
/// order, from one lex of the file. Non-block and keyless top-level
/// statements are skipped.
pub fn build_top_level_trees(src: &[u8]) -> (r: Vec<(String, Vec<TreeNode>)>)
    ensures
        trees_view(r@) == match child_spans(src@, Seq::empty()) {
            Some(sp) => top_level_from(src@, sp, 0),
            None => Seq::empty(),
        },
{
    let empty: Vec<String> = Vec::new();
    assert(string_path(empty@) =~= Seq::<Seq<u8>>::empty());
    let kids = match children_of(src, empty.as_slice()) {
        Some(k) => k,
        None => return Vec::new(),
    };
    let ghost sp = spans_view(kids@);
    let mut out: Vec<(String, Vec<TreeNode>)> = Vec::new();
    let mut j: usize = 0;
    while j < kids.len()
        invariant
            j <= kids@.len(),
            sp == spans_view(kids@),
            trees_view(out@) + top_level_from(src@, sp, j as int) == top_level_from(src@, sp, 0),
        decreases kids@.len() - j,
    {
        let c = &kids[j];
        assert(sp[j as int] == c.sview());
        let ghost before = trees_view(out@);
        if c.is_block {
            match &c.key {
                Some(key) => {
                    let mut path: Vec<String> = Vec::new();
                    path.push(key.clone());
                    assert(strings_view(path@) =~= seq![key@]);
                    let nodes = build_nodes_in_block(src, c.value_span, &path);
                    out.push((key.clone(), nodes));
                    assert(trees_view(out@) =~= before.push((key@, nodes_view(nodes@))));
                },
                None => {},
            }
        }
        assert(trees_view(out@) + top_level_from(src@, sp, j + 1) =~= before + top_level_from(src@, sp, j as int));
        j = j + 1;
    }
    assert(trees_view(out@) + Seq::<(Seq<char>, Seq<NodeView>)>::empty() =~= trees_view(out@));
    out
}

// ---------------------------------------------------------------------------
// Script blocks
// ---------------------------------------------------------------------------

/// The typed tree of one script block plus its raw text slice.
#[derive(Debug)]
pub struct ScriptBlock {
    /// Direct children of the addressed block.
    pub nodes: Vec<TreeNode>,
    /// Braces-inclusive raw text of the addressed block.
    pub raw: String,
    /// The block's braces-inclusive byte span in the source file.
    pub span: (usize, usize),
}

/// What `{:?}` writes for a list of strings: each quoted with its special
/// characters escaped, separated by `, `, in square brackets.
pub uninterp spec fn strings_debug_text(path: Seq<Seq<char>>) -> Seq<char>;

/// `format!("{path:?}")` of a slice of strings.
#[verifier::external_body]
fn strings_debug(path: &[String]) -> (s: String)
    ensures
        s@ == strings_debug_text(strings_view(path@)),
{
    format!("{path:?}")
}

/// The message for a path that names no block.
pub open spec fn no_block_text(path: Seq<Seq<char>>) -> Seq<char> {
    "No block found at path "@ + strings_debug_text(path)
}

fn no_block_message(path: &[String]) -> (s: String)
    ensures
        s@ == no_block_text(strings_view(path@)),
{
    let mut m = String::from_str("No block found at path ");
    let d = strings_debug(path);
    proof {
        reveal_strlit("No block found at path ");
    }
    m.append(d.as_str());
    m
}

/// Builds the typed tree of the block at `path` plus its raw slice (no I/O).
pub fn build_script_block(bytes: &[u8], path: &[String]) -> (r: Result<ScriptBlock, String>)
    ensures
        match r {
            Ok(b) => block_span_spec(bytes@, string_path(path@)) == Some(b.span)
                && b.raw@ == slice_text(bytes@, b.span)
                && nodes_view(b.nodes@) == nodes_spec(bytes@, path@),
            Err(m) => block_span_spec(bytes@, string_path(path@)) is None && m@ == no_block_text(strings_view(path@)),
        },
{
    let span = match block_span(bytes, path) {
        Some(s) => s,
        None => return Err(no_block_message(path)),
    };
    let raw = lossy_string(&bytes[span.0..span.1]);
    Ok(ScriptBlock { nodes: build_nodes(bytes, path), raw, span })
}

// ---------------------------------------------------------------------------
// Raw-fragment validation
// ---------------------------------------------------------------------------

/// Result of validating a raw script fragment.
#[derive(Debug)]
pub struct ScriptValidation {
    pub valid: bool,
    pub error: Option<String>,
}

/// Checks braces and quotes from byte `i` on, with `depth` open braces and
/// the current 1-based `line`.
pub open spec fn validate_from(src: Seq<u8>, i: int, depth: nat, line: nat) -> Result<(), Seq<char>>
    decreases src.len() - i,
{
    if i < 0 || i >= src.len() {
        if depth != 0 {
            Err(decimal(depth) + " unclosed '{' block"@ + if depth == 1 { Seq::empty() } else { "s"@ })
        } else {
            Ok(())
        }
    } else {
        let b = src[i];
        if b == 35 {
            proof {
                crate::lexer::lemma_line_end(src, i);
            }
            let e = crate::lexer::line_end_from(src, i);
            if e <= i {
                Ok(())
            } else {
                validate_from(src, e, depth, line)
            }
        } else if b == 34 {
            proof {
                crate::lexer::lemma_quote(src, i + 1);
            }
            let q = crate::lexer::quote_from(src, i + 1);
            match newline_before(src, i + 1, q) {
                Some(_) => Err("Unterminated string on line "@ + decimal(line)),
                None => if q >= src.len() {
                    Err("Unterminated string at end of text"@)
                } else {
                    validate_from(src, q + 1, depth, line)
                },
            }
        } else if b == 123 {
            validate_from(src, i + 1, depth + 1, line)
        } else if b == 125 {
            if depth == 0 {
                Err("Unmatched '}' on line "@ + decimal(line))
            } else {
                validate_from(src, i + 1, (depth - 1) as nat, line)
            }
        } else if b == 10 {
            validate_from(src, i + 1, depth, line + 1)
        } else {
            validate_from(src, i + 1, depth, line)
        }
    }
}

/// The first line feed in `[i, q)`, if any.
pub open spec fn newline_before(src: Seq<u8>, i: int, q: int) -> Option<int>
    decreases q - i,
{
    if i >= q || i < 0 || i >= src.len() {
        None
    } else if src[i] == 10 {
        Some(i)
    } else {
        newline_before(src, i + 1, q)
    }
}

fn validate_fragment(src: &[u8]) -> (r: Result<(), String>)
    requires
        src@.len() < usize::MAX,
    ensures
        match (r, validate_from(src@, 0, 0, 1)) {
            (Ok(()), Ok(())) => true,
            (Err(m), Err(w)) => m@ == w,
            _ => false,
        },
{
    let n = src.len();
    let mut depth: usize = 0;
    let mut line: usize = 1;
    let mut i: usize = 0;
    while i < n
        invariant
            n == src@.len(),
            n < usize::MAX,
            i <= n,
            depth <= i,
            line <= i + 1,
            validate_from(src@, i as int, depth as nat, line as nat) == validate_from(src@, 0, 0, 1),
        decreases n - i,
    {
        let b = src[i];
        if b == 35 {
            let ghost i0 = i;
            i = i + 1;
            while i < n && src[i] != 10
                invariant
                    i0 < i <= n,
                    n == src@.len(),
                    crate::lexer::line_end_from(src@, i as int) == crate::lexer::line_end_from(src@, i0 as int),
                decreases n - i,
            {
                i = i + 1;
            }
        } else if b == 34 {
            let ghost i0 = i;
            i = i + 1;
            while i < n && src[i] != 34
                invariant
                    i0 < i <= n,
                    n == src@.len(),
                    line <= i0 + 1,
                    crate::lexer::quote_from(src@, i as int) == crate::lexer::quote_from(src@, i0 + 1),
                    newline_before(src@, i0 + 1, crate::lexer::quote_from(src@, i0 + 1)) == newline_before(src@, i as int, crate::lexer::quote_from(src@, i0 + 1)),
                    src@[i0 as int] == 34,
                    validate_from(src@, i0 as int, depth as nat, line as nat) == validate_from(src@, 0, 0, 1),
                decreases n - i,
            {
                if src[i] == 10 {
                    proof {
                        crate::lexer::lemma_quote(src@, i as int);
                    }
                    let mut m = String::from_str("Unterminated string on line ");
                    let d = usize_to_string(line);
                    m.append(d.as_str());
                    assert(m@ =~= "Unterminated string on line "@ + decimal(line as nat));
                    return Err(m);
                }
                i = i + 1;
            }
            if i >= n {
                return Err(String::from_str("Unterminated string at end of text"));
            }
            i = i + 1;
        } else if b == 123 {
            depth = depth + 1;
            i = i + 1;
        } else if b == 125 {
            if depth == 0 {
                let mut m = String::from_str("Unmatched '}' on line ");
                let d = usize_to_string(line);
                m.append(d.as_str());
                return Err(m);
            }
            depth = depth - 1;
            i = i + 1;
        } else if b == 10 {
            line = line + 1;
            i = i + 1;
        } else {
            i = i + 1;
        }
    }
    if depth != 0 {
        let mut m = usize_to_string(depth);
        m.append(" unclosed '{' block");
        if depth != 1 {
            m.append("s");
        }
        assert(m@ =~= decimal(depth as nat) + " unclosed '{' block"@ + if depth == 1 { Seq::<char>::empty() } else { "s"@ });
        return Err(m);
    }
    Ok(())
}

/// Validates a raw script fragment (balanced braces/quotes, comment-aware).
pub fn validate_script_text(text: String) -> (r: ScriptValidation)
    requires
        vstd::utf8::encode_utf8(text@).len() < usize::MAX,
    ensures
        match validate_from(vstd::utf8::encode_utf8(text@), 0, 0, 1) {
            Ok(()) => r.valid && r.error is None,
            Err(w) => !r.valid && (r.error matches Some(m) && m@ == w),
        },
{
    match validate_fragment(text.as_str().as_bytes()) {
        Ok(()) => ScriptValidation { valid: true, error: None },
        Err(e) => ScriptValidation { valid: false, error: Some(e) },
    }
}

// ---------------------------------------------------------------------------
// Known-key registries
// ---------------------------------------------------------------------------

/// How a known trigger/effect key's argument is entered/displayed.
#[derive(Debug, Clone, Copy, PartialEq, Eq, Structural)]
pub enum ArgKind {
    /// `yes` / `no`.
    Bool,
    /// A number (numeric triggers compare `>=`).
    Number,
    /// A 3-char country tag or a scope reference (`ROOT`/`THIS`/`FROM`/`PREV`).
    Tag,
    /// A bare identifier / quoted string (culture, religion, flag, government…).
    String,
    /// A `{ … }` block argument.
    Block,
    /// A numeric comparison (dev/tech/etc., compared `>=`).
    Comparison,
}

/// One curated known trigger or effect key.
#[derive(Debug, Clone, Copy)]
pub struct KnownKey {
    pub key: &'static str,
    pub arg_kind: ArgKind,
    pub display_name: &'static str,
}
/// The common triggers vanilla decisions/events/missions actually use most.
/// Not exhaustive by design — unknown keys fall back to raw editing.
pub open spec fn known_triggers_table() -> Seq<KnownKey> {
    seq![
        KnownKey { key: "tag", arg_kind: ArgKind::Tag, display_name: "Is country" },
        KnownKey { key: "exists", arg_kind: ArgKind::Tag, display_name: "Country exists" },
        KnownKey { key: "was_tag", arg_kind: ArgKind::Tag, display_name: "Was country" },
        KnownKey { key: "has_country_flag", arg_kind: ArgKind::String, display_name: "Has country flag" },
        KnownKey { key: "has_global_flag", arg_kind: ArgKind::String, display_name: "Has global flag" },
        KnownKey { key: "has_ruler_flag", arg_kind: ArgKind::String, display_name: "Has ruler flag" },
        KnownKey { key: "religion", arg_kind: ArgKind::String, display_name: "Religion is" },
        KnownKey { key: "religion_group", arg_kind: ArgKind::String, display_name: "Religion group is" },
        KnownKey { key: "secondary_religion", arg_kind: ArgKind::String, display_name: "Secondary religion is" },
        KnownKey { key: "dominant_religion", arg_kind: ArgKind::String, display_name: "Dominant religion is" },
        KnownKey { key: "culture", arg_kind: ArgKind::String, display_name: "Culture is" },
        KnownKey { key: "primary_culture", arg_kind: ArgKind::String, display_name: "Primary culture is" },
        KnownKey { key: "culture_group", arg_kind: ArgKind::String, display_name: "Culture group is" },
        KnownKey { key: "government", arg_kind: ArgKind::String, display_name: "Government is" },
        KnownKey { key: "government_rank", arg_kind: ArgKind::Number, display_name: "Government rank" },
        KnownKey { key: "technology_group", arg_kind: ArgKind::String, display_name: "Tech group is" },
        KnownKey { key: "has_reform", arg_kind: ArgKind::String, display_name: "Has government reform" },
        KnownKey { key: "is_emperor", arg_kind: ArgKind::Bool, display_name: "Is HRE emperor" },
        KnownKey { key: "is_elector", arg_kind: ArgKind::Bool, display_name: "Is HRE elector" },
        KnownKey { key: "owns", arg_kind: ArgKind::Number, display_name: "Owns province" },
        KnownKey { key: "owns_core_province", arg_kind: ArgKind::Number, display_name: "Owns core province" },
        KnownKey { key: "owns_or_non_sovereign_subject_of", arg_kind: ArgKind::Number, display_name: "Owns/subject holds" },
        KnownKey { key: "controls", arg_kind: ArgKind::Number, display_name: "Controls province" },
        KnownKey { key: "capital", arg_kind: ArgKind::Number, display_name: "Capital is" },
        KnownKey { key: "num_of_cities", arg_kind: ArgKind::Comparison, display_name: "Number of provinces" },
        KnownKey { key: "num_of_ports", arg_kind: ArgKind::Comparison, display_name: "Number of ports" },
        KnownKey { key: "total_development", arg_kind: ArgKind::Comparison, display_name: "Total development" },
        KnownKey { key: "development", arg_kind: ArgKind::Comparison, display_name: "Development" },
        KnownKey { key: "adm", arg_kind: ArgKind::Comparison, display_name: "Administrative power" },
        KnownKey { key: "dip", arg_kind: ArgKind::Comparison, display_name: "Diplomatic power" },
        KnownKey { key: "mil", arg_kind: ArgKind::Comparison, display_name: "Military power" },
        KnownKey { key: "is_year", arg_kind: ArgKind::Number, display_name: "Is year" },
        KnownKey { key: "is_month", arg_kind: ArgKind::Number, display_name: "Is month" },
        KnownKey { key: "is_subject", arg_kind: ArgKind::Bool, display_name: "Is a subject" },
        KnownKey { key: "is_subject_of", arg_kind: ArgKind::Tag, display_name: "Is subject of" },
        KnownKey { key: "is_subject_of_type", arg_kind: ArgKind::String, display_name: "Is subject of type" },
        KnownKey { key: "overlord_of", arg_kind: ArgKind::Tag, display_name: "Is overlord of" },
        KnownKey { key: "is_at_war", arg_kind: ArgKind::Bool, display_name: "Is at war" },
        KnownKey { key: "war_with", arg_kind: ArgKind::Tag, display_name: "At war with" },
        KnownKey { key: "alliance_with", arg_kind: ArgKind::Tag, display_name: "Allied with" },
        KnownKey { key: "is_rival", arg_kind: ArgKind::Tag, display_name: "Rival of" },
        KnownKey { key: "is_neighbor_of", arg_kind: ArgKind::Tag, display_name: "Neighbours" },
        KnownKey { key: "is_free_or_tributary_trigger", arg_kind: ArgKind::Bool, display_name: "Free or tributary" },
        KnownKey { key: "dynasty", arg_kind: ArgKind::String, display_name: "Ruling dynasty is" },
        KnownKey { key: "has_regency", arg_kind: ArgKind::Bool, display_name: "Has a regency" },
        KnownKey { key: "ruler_age", arg_kind: ArgKind::Comparison, display_name: "Ruler age" },
        KnownKey { key: "is_lesser_in_union", arg_kind: ArgKind::Bool, display_name: "Junior union partner" },
        KnownKey { key: "mission_completed", arg_kind: ArgKind::String, display_name: "Mission completed" },
        KnownKey { key: "has_country_modifier", arg_kind: ArgKind::String, display_name: "Has country modifier" },
        KnownKey { key: "has_dlc", arg_kind: ArgKind::String, display_name: "Has DLC" },
        KnownKey { key: "ai", arg_kind: ArgKind::Bool, display_name: "Is AI-controlled" },
        KnownKey { key: "normal_or_historical_nations", arg_kind: ArgKind::Bool, display_name: "Normal/historical nations" },
        KnownKey { key: "treasury", arg_kind: ArgKind::Comparison, display_name: "Treasury" },
        KnownKey { key: "stability", arg_kind: ArgKind::Comparison, display_name: "Stability" },
        KnownKey { key: "prestige", arg_kind: ArgKind::Comparison, display_name: "Prestige" },
        KnownKey { key: "legitimacy", arg_kind: ArgKind::Comparison, display_name: "Legitimacy" },
        KnownKey { key: "manpower", arg_kind: ArgKind::Comparison, display_name: "Manpower (k)" },
        KnownKey { key: "army_size", arg_kind: ArgKind::Comparison, display_name: "Army size" },
    ]
}

/// The curated known-trigger list.
pub fn known_triggers() -> (r: Vec<KnownKey>)
    ensures
        r@ == known_triggers_table(),
{
    let r = vec![
        KnownKey { key: "tag", arg_kind: ArgKind::Tag, display_name: "Is country" },
        KnownKey { key: "exists", arg_kind: ArgKind::Tag, display_name: "Country exists" },
        KnownKey { key: "was_tag", arg_kind: ArgKind::Tag, display_name: "Was country" },
        KnownKey { key: "has_country_flag", arg_kind: ArgKind::String, display_name: "Has country flag" },
        KnownKey { key: "has_global_flag", arg_kind: ArgKind::String, display_name: "Has global flag" },
        KnownKey { key: "has_ruler_flag", arg_kind: ArgKind::String, display_name: "Has ruler flag" },
        KnownKey { key: "religion", arg_kind: ArgKind::String, display_name: "Religion is" },
        KnownKey { key: "religion_group", arg_kind: ArgKind::String, display_name: "Religion group is" },
        KnownKey { key: "secondary_religion", arg_kind: ArgKind::String, display_name: "Secondary religion is" },
        KnownKey { key: "dominant_religion", arg_kind: ArgKind::String, display_name: "Dominant religion is" },
        KnownKey { key: "culture", arg_kind: ArgKind::String, display_name: "Culture is" },
        KnownKey { key: "primary_culture", arg_kind: ArgKind::String, display_name: "Primary culture is" },
        KnownKey { key: "culture_group", arg_kind: ArgKind::String, display_name: "Culture group is" },
        KnownKey { key: "government", arg_kind: ArgKind::String, display_name: "Government is" },
        KnownKey { key: "government_rank", arg_kind: ArgKind::Number, display_name: "Government rank" },
        KnownKey { key: "technology_group", arg_kind: ArgKind::String, display_name: "Tech group is" },
        KnownKey { key: "has_reform", arg_kind: ArgKind::String, display_name: "Has government reform" },
        KnownKey { key: "is_emperor", arg_kind: ArgKind::Bool, display_name: "Is HRE emperor" },
        KnownKey { key: "is_elector", arg_kind: ArgKind::Bool, display_name: "Is HRE elector" },
        KnownKey { key: "owns", arg_kind: ArgKind::Number, display_name: "Owns province" },
        KnownKey { key: "owns_core_province", arg_kind: ArgKind::Number, display_name: "Owns core province" },
        KnownKey { key: "owns_or_non_sovereign_subject_of", arg_kind: ArgKind::Number, display_name: "Owns/subject holds" },
        KnownKey { key: "controls", arg_kind: ArgKind::Number, display_name: "Controls province" },
        KnownKey { key: "capital", arg_kind: ArgKind::Number, display_name: "Capital is" },
        KnownKey { key: "num_of_cities", arg_kind: ArgKind::Comparison, display_name: "Number of provinces" },
        KnownKey { key: "num_of_ports", arg_kind: ArgKind::Comparison, display_name: "Number of ports" },
        KnownKey { key: "total_development", arg_kind: ArgKind::Comparison, display_name: "Total development" },
        KnownKey { key: "development", arg_kind: ArgKind::Comparison, display_name: "Development" },
        KnownKey { key: "adm", arg_kind: ArgKind::Comparison, display_name: "Administrative power" },
        KnownKey { key: "dip", arg_kind: ArgKind::Comparison, display_name: "Diplomatic power" },
        KnownKey { key: "mil", arg_kind: ArgKind::Comparison, display_name: "Military power" },
        KnownKey { key: "is_year", arg_kind: ArgKind::Number, display_name: "Is year" },
        KnownKey { key: "is_month", arg_kind: ArgKind::Number, display_name: "Is month" },
        KnownKey { key: "is_subject", arg_kind: ArgKind::Bool, display_name: "Is a subject" },
        KnownKey { key: "is_subject_of", arg_kind: ArgKind::Tag, display_name: "Is subject of" },
        KnownKey { key: "is_subject_of_type", arg_kind: ArgKind::String, display_name: "Is subject of type" },
        KnownKey { key: "overlord_of", arg_kind: ArgKind::Tag, display_name: "Is overlord of" },
        KnownKey { key: "is_at_war", arg_kind: ArgKind::Bool, display_name: "Is at war" },
        KnownKey { key: "war_with", arg_kind: ArgKind::Tag, display_name: "At war with" },
        KnownKey { key: "alliance_with", arg_kind: ArgKind::Tag, display_name: "Allied with" },
        KnownKey { key: "is_rival", arg_kind: ArgKind::Tag, display_name: "Rival of" },
        KnownKey { key: "is_neighbor_of", arg_kind: ArgKind::Tag, display_name: "Neighbours" },
        KnownKey { key: "is_free_or_tributary_trigger", arg_kind: ArgKind::Bool, display_name: "Free or tributary" },
        KnownKey { key: "dynasty", arg_kind: ArgKind::String, display_name: "Ruling dynasty is" },
        KnownKey { key: "has_regency", arg_kind: ArgKind::Bool, display_name: "Has a regency" },
        KnownKey { key: "ruler_age", arg_kind: ArgKind::Comparison, display_name: "Ruler age" },
        KnownKey { key: "is_lesser_in_union", arg_kind: ArgKind::Bool, display_name: "Junior union partner" },
        KnownKey { key: "mission_completed", arg_kind: ArgKind::String, display_name: "Mission completed" },
        KnownKey { key: "has_country_modifier", arg_kind: ArgKind::String, display_name: "Has country modifier" },
        KnownKey { key: "has_dlc", arg_kind: ArgKind::String, display_name: "Has DLC" },
        KnownKey { key: "ai", arg_kind: ArgKind::Bool, display_name: "Is AI-controlled" },
        KnownKey { key: "normal_or_historical_nations", arg_kind: ArgKind::Bool, display_name: "Normal/historical nations" },
        KnownKey { key: "treasury", arg_kind: ArgKind::Comparison, display_name: "Treasury" },
        KnownKey { key: "stability", arg_kind: ArgKind::Comparison, display_name: "Stability" },
        KnownKey { key: "prestige", arg_kind: ArgKind::Comparison, display_name: "Prestige" },
        KnownKey { key: "legitimacy", arg_kind: ArgKind::Comparison, display_name: "Legitimacy" },
        KnownKey { key: "manpower", arg_kind: ArgKind::Comparison, display_name: "Manpower (k)" },
        KnownKey { key: "army_size", arg_kind: ArgKind::Comparison, display_name: "Army size" },
    ];
    assert(r@ =~= known_triggers_table());
    r
}

/// The common effects vanilla decisions/events/missions actually use most.
pub open spec fn known_effects_table() -> Seq<KnownKey> {
    seq![
        KnownKey { key: "add_prestige", arg_kind: ArgKind::Number, display_name: "Add prestige" },
        KnownKey { key: "add_stability", arg_kind: ArgKind::Number, display_name: "Add stability" },
        KnownKey { key: "add_stability_or_adm_power", arg_kind: ArgKind::Number, display_name: "Add stability or ADM" },
        KnownKey { key: "add_treasury", arg_kind: ArgKind::Number, display_name: "Add ducats" },
        KnownKey { key: "add_adm_power", arg_kind: ArgKind::Number, display_name: "Add ADM power" },
        KnownKey { key: "add_dip_power", arg_kind: ArgKind::Number, display_name: "Add DIP power" },
        KnownKey { key: "add_mil_power", arg_kind: ArgKind::Number, display_name: "Add MIL power" },
        KnownKey { key: "add_legitimacy", arg_kind: ArgKind::Number, display_name: "Add legitimacy" },
        KnownKey { key: "add_republican_tradition", arg_kind: ArgKind::Number, display_name: "Add republican tradition" },
        KnownKey { key: "add_army_tradition", arg_kind: ArgKind::Number, display_name: "Add army tradition" },
        KnownKey { key: "add_navy_tradition", arg_kind: ArgKind::Number, display_name: "Add navy tradition" },
        KnownKey { key: "add_war_exhaustion", arg_kind: ArgKind::Number, display_name: "Add war exhaustion" },
        KnownKey { key: "add_mercantilism", arg_kind: ArgKind::Number, display_name: "Add mercantilism" },
        KnownKey { key: "add_manpower", arg_kind: ArgKind::Number, display_name: "Add manpower (k)" },
        KnownKey { key: "add_absolutism", arg_kind: ArgKind::Number, display_name: "Add absolutism" },
        KnownKey { key: "add_adm_tech", arg_kind: ArgKind::Number, display_name: "Add ADM tech" },
        KnownKey { key: "change_adm", arg_kind: ArgKind::Number, display_name: "Change ruler ADM" },
        KnownKey { key: "add_core", arg_kind: ArgKind::Tag, display_name: "Add core" },
        KnownKey { key: "remove_core", arg_kind: ArgKind::Tag, display_name: "Remove core" },
        KnownKey { key: "add_permanent_claim", arg_kind: ArgKind::Tag, display_name: "Add permanent claim" },
        KnownKey { key: "add_claim", arg_kind: ArgKind::Tag, display_name: "Add claim" },
        KnownKey { key: "cede_province", arg_kind: ArgKind::Tag, display_name: "Cede province to" },
        KnownKey { key: "add_base_tax", arg_kind: ArgKind::Number, display_name: "Add base tax" },
        KnownKey { key: "add_base_production", arg_kind: ArgKind::Number, display_name: "Add base production" },
        KnownKey { key: "add_base_manpower", arg_kind: ArgKind::Number, display_name: "Add base manpower" },
        KnownKey { key: "transfer_development", arg_kind: ArgKind::Block, display_name: "Transfer development" },
        KnownKey { key: "change_tag", arg_kind: ArgKind::Tag, display_name: "Change tag to" },
        KnownKey { key: "change_religion", arg_kind: ArgKind::String, display_name: "Change religion" },
        KnownKey { key: "change_primary_culture", arg_kind: ArgKind::String, display_name: "Change primary culture" },
        KnownKey { key: "add_accepted_culture", arg_kind: ArgKind::String, display_name: "Add accepted culture" },
        KnownKey { key: "change_government", arg_kind: ArgKind::String, display_name: "Change government" },
        KnownKey { key: "add_government_reform", arg_kind: ArgKind::String, display_name: "Add government reform" },
        KnownKey { key: "set_government_rank", arg_kind: ArgKind::Number, display_name: "Set government rank" },
        KnownKey { key: "define_ruler", arg_kind: ArgKind::Block, display_name: "Define ruler" },
        KnownKey { key: "define_heir", arg_kind: ArgKind::Block, display_name: "Define heir" },
        KnownKey { key: "define_consort", arg_kind: ArgKind::Block, display_name: "Define consort" },
        KnownKey { key: "set_country_flag", arg_kind: ArgKind::String, display_name: "Set country flag" },
        KnownKey { key: "clr_country_flag", arg_kind: ArgKind::String, display_name: "Clear country flag" },
        KnownKey { key: "set_global_flag", arg_kind: ArgKind::String, display_name: "Set global flag" },
        KnownKey { key: "add_country_modifier", arg_kind: ArgKind::Block, display_name: "Add country modifier" },
        KnownKey { key: "remove_country_modifier", arg_kind: ArgKind::String, display_name: "Remove country modifier" },
        KnownKey { key: "country_event", arg_kind: ArgKind::Block, display_name: "Trigger country event" },
        KnownKey { key: "province_event", arg_kind: ArgKind::Block, display_name: "Trigger province event" },
        KnownKey { key: "complete_mission", arg_kind: ArgKind::String, display_name: "Complete mission" },
        KnownKey { key: "add_opinion", arg_kind: ArgKind::Block, display_name: "Add opinion" },
        KnownKey { key: "create_alliance", arg_kind: ArgKind::Tag, display_name: "Create alliance" },
        KnownKey { key: "declare_war", arg_kind: ArgKind::Tag, display_name: "Declare war" },
        KnownKey { key: "release", arg_kind: ArgKind::Tag, display_name: "Release nation" },
        KnownKey { key: "vassalize", arg_kind: ArgKind::Tag, display_name: "Vassalize" },
        KnownKey { key: "inherit", arg_kind: ArgKind::Tag, display_name: "Inherit" },
    ]
}

/// The curated known-effect list.
pub fn known_effects() -> (r: Vec<KnownKey>)
    ensures
        r@ == known_effects_table(),
{
    let r = vec![
        KnownKey { key: "add_prestige", arg_kind: ArgKind::Number, display_name: "Add prestige" },
        KnownKey { key: "add_stability", arg_kind: ArgKind::Number, display_name: "Add stability" },
        KnownKey { key: "add_stability_or_adm_power", arg_kind: ArgKind::Number, display_name: "Add stability or ADM" },
        KnownKey { key: "add_treasury", arg_kind: ArgKind::Number, display_name: "Add ducats" },
        KnownKey { key: "add_adm_power", arg_kind: ArgKind::Number, display_name: "Add ADM power" },
        KnownKey { key: "add_dip_power", arg_kind: ArgKind::Number, display_name: "Add DIP power" },
        KnownKey { key: "add_mil_power", arg_kind: ArgKind::Number, display_name: "Add MIL power" },
        KnownKey { key: "add_legitimacy", arg_kind: ArgKind::Number, display_name: "Add legitimacy" },
        KnownKey { key: "add_republican_tradition", arg_kind: ArgKind::Number, display_name: "Add republican tradition" },
        KnownKey { key: "add_army_tradition", arg_kind: ArgKind::Number, display_name: "Add army tradition" },
        KnownKey { key: "add_navy_tradition", arg_kind: ArgKind::Number, display_name: "Add navy tradition" },
        KnownKey { key: "add_war_exhaustion", arg_kind: ArgKind::Number, display_name: "Add war exhaustion" },
        KnownKey { key: "add_mercantilism", arg_kind: ArgKind::Number, display_name: "Add mercantilism" },
        KnownKey { key: "add_manpower", arg_kind: ArgKind::Number, display_name: "Add manpower (k)" },
        KnownKey { key: "add_absolutism", arg_kind: ArgKind::Number, display_name: "Add absolutism" },
        KnownKey { key: "add_adm_tech", arg_kind: ArgKind::Number, display_name: "Add ADM tech" },
        KnownKey { key: "change_adm", arg_kind: ArgKind::Number, display_name: "Change ruler ADM" },
        KnownKey { key: "add_core", arg_kind: ArgKind::Tag, display_name: "Add core" },
        KnownKey { key: "remove_core", arg_kind: ArgKind::Tag, display_name: "Remove core" },
        KnownKey { key: "add_permanent_claim", arg_kind: ArgKind::Tag, display_name: "Add permanent claim" },
        KnownKey { key: "add_claim", arg_kind: ArgKind::Tag, display_name: "Add claim" },
        KnownKey { key: "cede_province", arg_kind: ArgKind::Tag, display_name: "Cede province to" },
        KnownKey { key: "add_base_tax", arg_kind: ArgKind::Number, display_name: "Add base tax" },
        KnownKey { key: "add_base_production", arg_kind: ArgKind::Number, display_name: "Add base production" },
        KnownKey { key: "add_base_manpower", arg_kind: ArgKind::Number, display_name: "Add base manpower" },
        KnownKey { key: "transfer_development", arg_kind: ArgKind::Block, display_name: "Transfer development" },
        KnownKey { key: "change_tag", arg_kind: ArgKind::Tag, display_name: "Change tag to" },
        KnownKey { key: "change_religion", arg_kind: ArgKind::String, display_name: "Change religion" },
        KnownKey { key: "change_primary_culture", arg_kind: ArgKind::String, display_name: "Change primary culture" },
        KnownKey { key: "add_accepted_culture", arg_kind: ArgKind::String, display_name: "Add accepted culture" },
        KnownKey { key: "change_government", arg_kind: ArgKind::String, display_name: "Change government" },
        KnownKey { key: "add_government_reform", arg_kind: ArgKind::String, display_name: "Add government reform" },
        KnownKey { key: "set_government_rank", arg_kind: ArgKind::Number, display_name: "Set government rank" },
        KnownKey { key: "define_ruler", arg_kind: ArgKind::Block, display_name: "Define ruler" },
        KnownKey { key: "define_heir", arg_kind: ArgKind::Block, display_name: "Define heir" },
        KnownKey { key: "define_consort", arg_kind: ArgKind::Block, display_name: "Define consort" },
        KnownKey { key: "set_country_flag", arg_kind: ArgKind::String, display_name: "Set country flag" },
        KnownKey { key: "clr_country_flag", arg_kind: ArgKind::String, display_name: "Clear country flag" },
        KnownKey { key: "set_global_flag", arg_kind: ArgKind::String, display_name: "Set global flag" },
        KnownKey { key: "add_country_modifier", arg_kind: ArgKind::Block, display_name: "Add country modifier" },
        KnownKey { key: "remove_country_modifier", arg_kind: ArgKind::String, display_name: "Remove country modifier" },
        KnownKey { key: "country_event", arg_kind: ArgKind::Block, display_name: "Trigger country event" },
        KnownKey { key: "province_event", arg_kind: ArgKind::Block, display_name: "Trigger province event" },
        KnownKey { key: "complete_mission", arg_kind: ArgKind::String, display_name: "Complete mission" },
        KnownKey { key: "add_opinion", arg_kind: ArgKind::Block, display_name: "Add opinion" },
        KnownKey { key: "create_alliance", arg_kind: ArgKind::Tag, display_name: "Create alliance" },
        KnownKey { key: "declare_war", arg_kind: ArgKind::Tag, display_name: "Declare war" },
        KnownKey { key: "release", arg_kind: ArgKind::Tag, display_name: "Release nation" },
        KnownKey { key: "vassalize", arg_kind: ArgKind::Tag, display_name: "Vassalize" },
        KnownKey { key: "inherit", arg_kind: ArgKind::Tag, display_name: "Inherit" },
    ];
    assert(r@ =~= known_effects_table());
    r
}


} // verus!
