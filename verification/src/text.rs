//! Byte- and string-level helpers shared by the script lexer, the parser and
//! the edit toolkit: ASCII classification, slice comparison, unsigned integer
//! parsing, and the UTF-8 conversions the library needs.

use vstd::prelude::*;
use vstd::utf8::*;

verus! {

/// `u8::is_ascii_whitespace`: space, tab, line feed, form feed, carriage return.
pub open spec fn is_ws(b: u8) -> bool {
    b == 32 || b == 9 || b == 10 || b == 12 || b == 13
}

/// Bytes that end a bare symbol in Clausewitz script: `{ } = # "`.
pub open spec fn is_delim(b: u8) -> bool {
    b == 123 || b == 125 || b == 61 || b == 35 || b == 34
}

pub fn is_ws_byte(b: u8) -> (r: bool)
    ensures
        r == is_ws(b),
{
    b == 32 || b == 9 || b == 10 || b == 12 || b == 13
}

pub fn is_delim_byte(b: u8) -> (r: bool)
    ensures
        r == is_delim(b),
{
    b == 123 || b == 125 || b == 61 || b == 35 || b == 34
}

/// Space or tab.
pub open spec fn is_space_tab(b: u8) -> bool {
    b == 32 || b == 9
}

pub fn is_space_tab_byte(b: u8) -> (r: bool)
    ensures
        r == is_space_tab(b),
{
    b == 32 || b == 9
}

/// ASCII lower-casing of one byte (`u8::to_ascii_lowercase`).
pub open spec fn ascii_lower(b: u8) -> u8 {
    if 65 <= b <= 90 {
        (b + 32) as u8
    } else {
        b
    }
}

/// `<[u8]>::eq_ignore_ascii_case`.
pub open spec fn eq_ignore_case(a: Seq<u8>, b: Seq<u8>) -> bool {
    a.len() == b.len() && forall|i: int| 0 <= i < a.len() ==> ascii_lower(#[trigger] a[i]) == ascii_lower(b[i])
}

pub fn lower_byte(b: u8) -> (r: u8)
    ensures
        r == ascii_lower(b),
{
    if 65 <= b && b <= 90 {
        b + 32
    } else {
        b
    }
}

pub fn bytes_eq_ignore_case(a: &[u8], b: &[u8]) -> (r: bool)
    ensures
        r == eq_ignore_case(a@, b@),
{
    if a.len() != b.len() {
        return false;
    }
    let mut i: usize = 0;
    while i < a.len()
        invariant
            a@.len() == b@.len(),
            i <= a@.len(),
            forall|j: int| 0 <= j < i ==> ascii_lower(#[trigger] a@[j]) == ascii_lower(b@[j]),
        decreases a@.len() - i,
    {
        if lower_byte(a[i]) != lower_byte(b[i]) {
            return false;
        }
        i = i + 1;
    }
    true
}

pub fn bytes_eq(a: &[u8], b: &[u8]) -> (r: bool)
    ensures
        r == (a@ == b@),
{
    if a.len() != b.len() {
        return false;
    }
    let mut i: usize = 0;
    while i < a.len()
        invariant
            a@.len() == b@.len(),
            i <= a@.len(),
            forall|j: int| 0 <= j < i ==> a@[j] == b@[j],
        decreases a@.len() - i,
    {
        if a[i] != b[i] {
            return false;
        }
        i = i + 1;
    }
    assert(a@ =~= b@);
    true
}

/// String equality through the UTF-8 encodings (which determine the text).
pub fn str_eq(a: &str, b: &str) -> (r: bool)
    ensures
        r == (a@ == b@),
{
    let r = bytes_eq(a.as_bytes(), b.as_bytes());
    proof {
        encode_utf8_decode_utf8(a@);
        encode_utf8_decode_utf8(b@);
    }
    r
}

// ---------------------------------------------------------------------------
// Unsigned integer parsing (`<uN as FromStr>::from_str`, radix 10): an optional
// leading `+`, then one or more ASCII digits, and the value must fit the type.
// ---------------------------------------------------------------------------

pub open spec fn is_digit(b: u8) -> bool {
    48 <= b <= 57
}

pub open spec fn all_digits(s: Seq<u8>) -> bool {
    forall|i: int| 0 <= i < s.len() ==> is_digit(#[trigger] s[i])
}

/// Decimal value of a digit string.
pub open spec fn digits_value(s: Seq<u8>) -> nat
    decreases s.len(),
{
    if s.len() == 0 {
        0
    } else {
        digits_value(s.drop_last()) * 10 + (s.last() - 48) as nat
    }
}

/// The digits part of a number text: without its leading `+`, if any.
pub open spec fn unsigned_digits(s: Seq<u8>) -> Seq<u8> {
    if s.len() > 0 && s[0] == 43 {
        s.drop_first()
    } else {
        s
    }
}

/// What `str::parse::<uN>()` yields for the text with UTF-8 bytes `s`, where
/// `max` is `uN::MAX`.
pub open spec fn parse_unsigned(s: Seq<u8>, max: nat) -> Option<nat> {
    let d = unsigned_digits(s);
    if d.len() > 0 && all_digits(d) && digits_value(d) <= max {
        Some(digits_value(d))
    } else {
        None
    }
}

/// Parses the bytes as a decimal unsigned number no larger than `max`.
pub fn parse_unsigned_bytes(s: &[u8], max: u64) -> (r: Option<u64>)
    requires
        max >= 9,
    ensures
        r == match parse_unsigned(s@, max as nat) {
            Some(v) => Some(v as u64),
            None => None::<u64>,
        },
{
    let start: usize = if s.len() > 0 && s[0] == 43 { 1 } else { 0 };
    let ghost d = unsigned_digits(s@);
    assert(d =~= s@.subrange(start as int, s@.len() as int));
    if start >= s.len() {
        return None;
    }
    let mut v: u64 = 0;
    let mut i: usize = start;
    let mut overflow = false;
    while i < s.len()
        invariant
            start <= i <= s@.len(),
            max >= 9,
            d == unsigned_digits(s@),
            d =~= s@.subrange(start as int, s@.len() as int),
            forall|j: int| start <= j < i ==> is_digit(#[trigger] s@[j]),
            !overflow ==> v as nat == digits_value(s@.subrange(start as int, i as int)) && v <= max,
            overflow ==> digits_value(s@.subrange(start as int, i as int)) > max,
        decreases s@.len() - i,
    {
        let b = s[i];
        if !(48 <= b && b <= 57) {
            assert(d[i - start] == b);
            assert(!is_digit(d[i - start]));
            assert(!all_digits(d));
            return None;
        }
        let ghost prev = s@.subrange(start as int, i as int);
        assert(s@.subrange(start as int, i + 1).drop_last() =~= prev);
        let digit = (b - 48) as u64;
        if !overflow {
            if v > (max - digit) / 10 {
                overflow = true;
                assert(digits_value(s@.subrange(start as int, i + 1)) == v * 10 + digit);
                assert(v * 10 + digit > max) by (nonlinear_arith)
                    requires
                        v > (max - digit) / 10,
                        digit <= max,
                {
                }
            } else {
                assert(v * 10 + digit <= max) by (nonlinear_arith)
                    requires
                        v <= (max - digit) / 10,
                {
                }
                v = v * 10 + digit;
            }
        } else {
            assert(digits_value(s@.subrange(start as int, i + 1)) >= digits_value(prev) * 10) by (nonlinear_arith)
                requires
                    digits_value(s@.subrange(start as int, i + 1)) == digits_value(prev) * 10 + digit,
            {
            }
            assert(digits_value(prev) * 10 >= digits_value(prev)) by (nonlinear_arith);
        }
        i = i + 1;
    }
    assert(s@.subrange(start as int, s@.len() as int) =~= d);
    if overflow {
        None
    } else {
        Some(v)
    }
}

// ---------------------------------------------------------------------------
// Strings from bytes.
// ---------------------------------------------------------------------------

/// The text `String::from_utf8_lossy` decodes from the bytes `b` (ill-formed
/// sequences become U+FFFD).
pub uninterp spec fn lossy_utf8(b: Seq<u8>) -> Seq<char>;

/// `String::from_utf8_lossy`: the result is a function of the bytes alone;
/// for well-formed UTF-8 it is exactly the decoded text.
#[verifier::external_body]
pub fn lossy_string(b: &[u8]) -> (s: String)
    ensures
        s@ == lossy_utf8(b@),
        valid_utf8(b@) ==> s@ == decode_utf8(b@),
{
    String::from_utf8_lossy(b).into_owned()
}

/// `std::str::from_utf8(b).is_ok()`: whether the bytes are well-formed
/// UTF-8 (the function fails exactly on ill-formed input).
#[verifier::external_body]
pub fn is_utf8(b: &[u8]) -> (r: bool)
    ensures
        r == valid_utf8(b@),
{
    std::str::from_utf8(b).is_ok()
}

/// The text of an optional string.
pub open spec fn opt_view(p: Option<String>) -> Option<Seq<char>> {
    match p {
        Some(s) => Some(s@),
        None => None,
    }
}

/// The texts of a list of strings.
pub open spec fn strings_of(v: Seq<String>) -> Seq<Seq<char>> {
    v.map_values(|s: String| s@)
}

pub fn chars_of(text: &str) -> (r: Vec<char>)
    ensures
        r@ == text@,
{
    broadcast use vstd::string::group_string_axioms;
    let mut out: Vec<char> = Vec::new();
    for c in it: text.chars()
        invariant
            out@ == it.seq().take(it.index() as int),
            it.seq() == text@,
    {
        out.push(c);
    }
    assert(out@ =~= text@);
    out
}

/// `String::push`: appends one char.
#[verifier::external_body]
pub fn push_char(s: &mut String, c: char)
    ensures
        final(s)@ == old(s)@.push(c),
{
    s.push(c);
}

/// A `String` holding exactly the given chars.
pub fn string_from_chars(cs: &[char]) -> (r: String)
    ensures
        r@ == cs@,
{
    let mut s = String::new();
    let mut i: usize = 0;
    while i < cs.len()
        invariant
            i <= cs@.len(),
            s@ == cs@.subrange(0, i as int),
        decreases cs@.len() - i,
    {
        push_char(&mut s, cs[i]);
        assert(s@ =~= cs@.subrange(0, i + 1));
        i = i + 1;
    }
    assert(cs@.subrange(0, cs@.len() as int) =~= cs@);
    s
}

/// Copies of the given strings.
pub fn clone_strings(v: &Vec<String>) -> (r: Vec<String>)
    ensures
        r@ == v@,
{
    let mut out: Vec<String> = Vec::new();
    let mut i: usize = 0;
    while i < v.len()
        invariant
            i <= v@.len(),
            out@ == v@.subrange(0, i as int),
        decreases v@.len() - i,
    {
        out.push(v[i].clone());
        assert(out@ =~= v@.subrange(0, i + 1));
        i = i + 1;
    }
    assert(v@.subrange(0, v@.len() as int) =~= v@);
    out
}

/// The ASCII decimal digits of `n`.
pub open spec fn digit_bytes(n: nat) -> Seq<u8>
    decreases n,
{
    if n < 10 {
        seq![(n + 48) as u8]
    } else {
        digit_bytes(n / 10).push(((n % 10) + 48) as u8)
    }
}

/// The decimal digits of `n` read back give `n`.
pub proof fn lemma_digit_bytes(n: nat, max: nat)
    requires
        n <= max,
    ensures
        digit_bytes(n).len() > 0,
        all_digits(digit_bytes(n)),
        parse_unsigned(digit_bytes(n), max) == Some(n),
    decreases n,
{
    let d = digit_bytes(n);
    if n >= 10 {
        lemma_digit_bytes(n / 10, max);
        assert(d.drop_last() =~= digit_bytes(n / 10));
        assert(n == (n / 10) * 10 + n % 10) by (nonlinear_arith);
        assert forall|i: int| 0 <= i < d.len() implies is_digit(#[trigger] d[i]) by {
            if i < d.len() - 1 {
                assert(d[i] == digit_bytes(n / 10)[i]);
            }
        }
        assert(digits_value(d) == n);
    } else {
        assert(digits_value(d.drop_last()) == 0);
    }
    assert(is_digit(d[0]));
    assert(unsigned_digits(d) == d);
}

/// The decimal digits of `n` (`n.to_string()`).
pub open spec fn decimal(n: nat) -> Seq<char>
    decreases n,
{
    if n < 10 {
        seq![((n + 48) as u8) as char]
    } else {
        decimal(n / 10).push((((n % 10) + 48) as u8) as char)
    }
}

pub fn usize_to_string(n: usize) -> (r: String)
    ensures
        r@ == decimal(n as nat),
    decreases n,
{
    let digit = ((n % 10) as u8 + 48) as char;
    if n < 10 {
        let mut s = String::new();
        push_char(&mut s, digit);
        assert(s@ =~= decimal(n as nat));
        s
    } else {
        let mut s = usize_to_string(n / 10);
        push_char(&mut s, digit);
        s
    }
}

/// An upper-case hexadecimal digit.
pub open spec fn hex_char(d: nat) -> char {
    if d < 10 {
        ((d + 48) as u8) as char
    } else {
        ((d + 55) as u8) as char
    }
}

/// The upper-case hexadecimal digits of `n`.
pub open spec fn hex_text(n: nat) -> Seq<char>
    decreases n,
{
    if n < 16 {
        seq![hex_char(n)]
    } else {
        hex_text(n / 16).push(hex_char(n % 16))
    }
}

/// `format!("{:04X}", n)`: the hexadecimal digits, zero-padded to four.
pub open spec fn hex4_text(n: nat) -> Seq<char> {
    let d = hex_text(n);
    if d.len() < 4 {
        Seq::new((4 - d.len()) as nat, |i: int| '0') + d
    } else {
        d
    }
}

fn hex_digit(d: u32) -> (c: char)
    requires
        d < 16,
    ensures
        c == hex_char(d as nat),
{
    if d < 10 {
        ((d + 48) as u8) as char
    } else {
        ((d + 55) as u8) as char
    }
}

fn hex_string(n: u32) -> (r: String)
    ensures
        r@ == hex_text(n as nat),
    decreases n,
{
    let c = hex_digit(n % 16);
    if n < 16 {
        let mut s = String::new();
        push_char(&mut s, c);
        assert(s@ =~= hex_text(n as nat));
        s
    } else {
        let mut s = hex_string(n / 16);
        push_char(&mut s, c);
        s
    }
}

/// The upper-case hexadecimal digits of `n`, zero-padded to four.
pub fn hex4(n: u32) -> (r: String)
    ensures
        r@ == hex4_text(n as nat),
{
    let d = hex_string(n);
    let k = d.as_str().unicode_len();
    if k < 4 {
        let mut s = String::new();
        let mut i: usize = 0;
        while i < 4 - k
            invariant
                k < 4,
                i <= 4 - k,
                s@ == Seq::new(i as nat, |j: int| '0'),
            decreases 4 - k - i,
        {
            push_char(&mut s, '0');
            i = i + 1;
            assert(s@ =~= Seq::new(i as nat, |j: int| '0'));
        }
        s.append(d.as_str());
        s
    } else {
        d
    }
}

/// `<key>#<occ>` for a later occurrence, the bare key for the first one.
pub open spec fn segment_spec(key: Seq<char>, occ: nat) -> Seq<char> {
    if occ > 0 {
        key + seq!['#'] + decimal(occ)
    } else {
        key
    }
}

/// A `#n` occurrence-qualified path segment (bare when the occurrence is 0).
pub fn segment(key: &str, occ: usize) -> (r: String)
    ensures
        r@ == segment_spec(key@, occ as nat),
{
    let mut s = String::from_str(key);
    if occ > 0 {
        push_char(&mut s, '#');
        let d = usize_to_string(occ);
        s.append(d.as_str());
    }
    s
}

/// ASCII upper-casing of one char (`char::to_ascii_uppercase`).
pub open spec fn upper_char(c: char) -> char {
    if 'a' <= c <= 'z' {
        ((c as u32 - 32) as u8) as char
    } else {
        c
    }
}

/// ASCII lower-casing of one char (`char::to_ascii_lowercase`).
pub open spec fn lower_char(c: char) -> char {
    if 'A' <= c <= 'Z' {
        ((c as u32 + 32) as u8) as char
    } else {
        c
    }
}

pub fn upper_char_exec(c: char) -> (r: char)
    ensures
        r == upper_char(c),
{
    if 'a' <= c && c <= 'z' {
        ((c as u32 - 32) as u8) as char
    } else {
        c
    }
}

pub fn lower_char_exec(c: char) -> (r: char)
    ensures
        r == lower_char(c),
{
    if 'A' <= c && c <= 'Z' {
        ((c as u32 + 32) as u8) as char
    } else {
        c
    }
}

/// The text with every ASCII letter upper-cased.
pub open spec fn upper_text(s: Seq<char>) -> Seq<char> {
    s.map_values(|c: char| upper_char(c))
}

/// The text with every ASCII letter lower-cased.
pub open spec fn lower_text(s: Seq<char>) -> Seq<char> {
    s.map_values(|c: char| lower_char(c))
}

pub fn upper_chars(s: &[char]) -> (r: Vec<char>)
    ensures
        r@ == upper_text(s@),
{
    let mut out: Vec<char> = Vec::new();
    let mut i: usize = 0;
    while i < s.len()
        invariant
            i <= s@.len(),
            out@ == upper_text(s@.subrange(0, i as int)),
        decreases s@.len() - i,
    {
        out.push(upper_char_exec(s[i]));
        assert(upper_text(s@.subrange(0, i + 1)) =~= upper_text(s@.subrange(0, i as int)).push(upper_char(s@[i as int])));
        i = i + 1;
    }
    assert(s@.subrange(0, s@.len() as int) =~= s@);
    out
}

pub fn lower_chars(s: &[char]) -> (r: Vec<char>)
    ensures
        r@ == lower_text(s@),
{
    let mut out: Vec<char> = Vec::new();
    let mut i: usize = 0;
    while i < s.len()
        invariant
            i <= s@.len(),
            out@ == lower_text(s@.subrange(0, i as int)),
        decreases s@.len() - i,
    {
        out.push(lower_char_exec(s[i]));
        assert(lower_text(s@.subrange(0, i + 1)) =~= lower_text(s@.subrange(0, i as int)).push(lower_char(s@[i as int])));
        i = i + 1;
    }
    assert(s@.subrange(0, s@.len() as int) =~= s@);
    out
}

pub fn chars_eq(a: &[char], b: &[char]) -> (r: bool)
    ensures
        r == (a@ == b@),
{
    if a.len() != b.len() {
        return false;
    }
    let mut i: usize = 0;
    while i < a.len()
        invariant
            a@.len() == b@.len(),
            i <= a@.len(),
            forall|j: int| 0 <= j < i ==> a@[j] == b@[j],
        decreases a@.len() - i,
    {
        if a[i] != b[i] {
            return false;
        }
        i = i + 1;
    }
    assert(a@ =~= b@);
    true
}

/// Whether the chars equal the text of `lit`.
pub fn chars_eq_str(a: &[char], lit: &str) -> (r: bool)
    ensures
        r == (a@ == lit@),
{
    let b = chars_of(lit);
    chars_eq(a, b.as_slice())
}

/// Whether `p` is a prefix of `a`.
pub fn chars_start_with(a: &[char], p: &str) -> (r: bool)
    ensures
        r == (p@.len() <= a@.len() && a@.subrange(0, p@.len() as int) == p@),
{
    let b = chars_of(p);
    if b.len() > a.len() {
        return false;
    }
    chars_eq(&a[0..b.len()], b.as_slice())
}

// ---------------------------------------------------------------------------
// Localisation pairs and titles
// ---------------------------------------------------------------------------

/// The text of the localisation key in `loc` (the first pair for it).
pub open spec fn loc_get(loc: Seq<(Seq<char>, Seq<char>)>, key: Seq<char>) -> Option<Seq<char>>
    decreases loc.len(),
{
    if loc.len() == 0 {
        None
    } else if loc[0].0 == key {
        Some(loc[0].1)
    } else {
        loc_get(loc.skip(1), key)
    }
}

pub open spec fn loc_view(loc: Seq<(String, String)>) -> Seq<(Seq<char>, Seq<char>)> {
    loc.map_values(|p: (String, String)| (p.0@, p.1@))
}

/// A key read as a title: underscores become spaces and the first letter of
/// each word is upper-cased.
pub open spec fn prettify_spec(key: Seq<char>) -> Seq<char> {
    Seq::new(key.len(), |i: int| if key[i] == '_' { ' ' } else if i == 0 || key[i - 1] == '_' { upper_char(key[i]) } else { key[i] })
}

/// The text of `key` in the localisation pairs `loc` (the first pair for it).
pub fn loc_lookup(loc: &[(String, String)], key: &String) -> (r: Option<String>)
    ensures
        opt_view(r) == loc_get(loc_view(loc@), key@),
{
    let ghost lv = loc_view(loc@);
    let mut i: usize = 0;
    assert(lv.skip(0) =~= lv);
    while i < loc.len()
        invariant
            i <= loc@.len(),
            lv == loc_view(loc@),
            loc_get(lv.skip(i as int), key@) == loc_get(lv, key@),
        decreases loc@.len() - i,
    {
        let ghost rest = lv.skip(i as int);
        assert(rest[0] == (loc@[i as int].0@, loc@[i as int].1@));
        assert(rest.skip(1) =~= lv.skip(i + 1));
        if str_eq(loc[i].0.as_str(), key.as_str()) {
            return Some(loc[i].1.clone());
        }
        i = i + 1;
    }
    assert(lv.skip(i as int) =~= Seq::<(Seq<char>, Seq<char>)>::empty());
    None
}

/// A key read as a title (see [`prettify_spec`]).
pub fn prettify(key: &str) -> (r: String)
    ensures
        r@ == prettify_spec(key@),
{
    let cs = chars_of(key);
    let mut out: Vec<char> = Vec::new();
    let mut i: usize = 0;
    while i < cs.len()
        invariant
            i <= cs@.len(),
            cs@ == key@,
            out@ == prettify_spec(key@).subrange(0, i as int),
        decreases cs@.len() - i,
    {
        let c = cs[i];
        let o = if c == '_' {
            ' '
        } else if i == 0 || cs[i - 1] == '_' {
            upper_char_exec(c)
        } else {
            c
        };
        out.push(o);
        assert(out@ =~= prettify_spec(key@).subrange(0, i + 1));
        i = i + 1;
    }
    assert(prettify_spec(key@).subrange(0, cs@.len() as int) =~= prettify_spec(key@));
    string_from_chars(out.as_slice())
}


/// The text of `key` in the localisation pairs, or the key itself when it
/// has none.
pub open spec fn resolve_spec(loc: Seq<(Seq<char>, Seq<char>)>, key: Seq<char>) -> Seq<char> {
    match loc_get(loc, key) {
        Some(t) => t,
        None => key,
    }
}

/// The text of `key` in the localisation pairs, falling back to the key.
pub fn loc_resolve(loc: &[(String, String)], key: &str) -> (r: String)
    ensures
        r@ == resolve_spec(loc_view(loc@), key@),
{
    let k = key.to_string();
    match loc_lookup(loc, &k) {
        Some(t) => t,
        None => k,
    }
}

} // verus!

