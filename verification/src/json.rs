//! A small JSON reader, verified against a specification-level grammar.
//!
//! The portal's response envelopes are JSON objects. This module defines
//! the accepted grammar as recursive spec functions over `Seq<char>` and
//! an executable recursive-descent parser proved to return exactly what
//! the grammar says. The accepted language is standard JSON, with three
//! points fixed by the grammar itself: numbers are kept as their raw
//! literal text (interpretation happens at extraction time, and only
//! unsigned integers are extracted), a key repeated within one object is
//! read at its first occurrence and later ones are ignored, and nesting
//! of arrays and objects is bounded by `MAX_NESTING`.

use vstd::prelude::*;

verus! {

broadcast use vstd::std_specs::vec::axiom_vec_index_decreases;

/// Specification-level JSON value. Object members keep wire order.
pub enum JsonV {
    Null,
    Bool(bool),
    /// Raw literal text of a number, e.g. `-12.5e3`.
    Num(Seq<char>),
    /// Decoded characters of a string literal.
    Str(Seq<char>),
    Arr(Seq<JsonV>),
    Obj(Seq<(Seq<char>, JsonV)>),
}

/// Executable JSON value, the image of `JsonV`.
pub enum Json {
    Null,
    Bool(bool),
    Num(Vec<char>),
    Str(Vec<char>),
    Arr(Vec<Json>),
    Obj(Vec<(Vec<char>, Json)>),
}

impl View for Json {
    type V = JsonV;

    open spec fn view(&self) -> JsonV
        decreases self, 1int,
    {
        match self {
            Json::Null => JsonV::Null,
            Json::Bool(b) => JsonV::Bool(*b),
            Json::Num(t) => JsonV::Num(t@),
            Json::Str(t) => JsonV::Str(t@),
            Json::Arr(elems) => JsonV::Arr(vec_json_view(elems)),
            Json::Obj(members) => JsonV::Obj(vec_members_view(members)),
        }
    }
}

/// Elementwise view of a parsed element vector.
pub open spec fn vec_json_view(es: &Vec<Json>) -> Seq<JsonV>
    decreases es, 0int,
{
    Seq::new(
        es@.len(),
        |k: int|
            if 0 <= k < es.len() {
                es[k].view()
            } else {
                JsonV::Null
            },
    )
}

/// Elementwise view of a parsed member vector.
pub open spec fn vec_members_view(ms: &Vec<(Vec<char>, Json)>) -> Seq<(Seq<char>, JsonV)>
    decreases ms, 0int,
{
    Seq::new(
        ms@.len(),
        |k: int|
            if 0 <= k < ms.len() {
                (ms[k].0@, ms[k].1.view())
            } else {
                (Seq::empty(), JsonV::Null)
            },
    )
}

/// JSON insignificant whitespace.
pub open spec fn is_ws(c: char) -> bool {
    c == ' ' || c == '\t' || c == '\n' || c == '\r'
}

pub open spec fn is_digit(c: char) -> bool {
    '0' <= c <= '9'
}

/// First position at or after `i` holding no whitespace (or the end).
pub open spec fn sp_ws(s: Seq<char>, i: int) -> int
    decreases s.len() - i,
{
    if 0 <= i < s.len() && is_ws(s[i]) {
        sp_ws(s, i + 1)
    } else {
        i
    }
}

pub proof fn lemma_sp_ws_bounds(s: Seq<char>, i: int)
    requires
        0 <= i <= s.len(),
    ensures
        i <= sp_ws(s, i) <= s.len(),
    decreases s.len() - i,
{
    if i < s.len() && is_ws(s[i]) {
        lemma_sp_ws_bounds(s, i + 1);
    }
}

pub open spec fn is_hex(c: char) -> bool {
    is_digit(c) || ('a' <= c <= 'f') || ('A' <= c <= 'F')
}

/// Numeric value of one hexadecimal digit.
pub open spec fn hex_val(c: char) -> int
    recommends
        is_hex(c),
{
    if is_digit(c) {
        c as int - '0' as int
    } else if 'a' <= c <= 'f' {
        c as int - 'a' as int + 10
    } else {
        c as int - 'A' as int + 10
    }
}

/// Replacement for a one-character escape, `\n` and the like.
pub open spec fn esc_simple(c: char) -> Option<char> {
    if c == '"' {
        Some('"')
    } else if c == '\\' {
        Some('\\')
    } else if c == '/' {
        Some('/')
    } else if c == 'n' {
        Some('\n')
    } else if c == 't' {
        Some('\t')
    } else if c == 'r' {
        Some('\r')
    } else if c == 'b' {
        Some('\u{0008}')
    } else if c == 'f' {
        Some('\u{000C}')
    } else {
        None
    }
}

/// Raw control characters may not stand in a string literal.
pub open spec fn is_control(c: char) -> bool {
    (c as u32) < 32
}

/// Body of a string literal, starting just after the opening quote.
/// Returns the decoded characters and the position after the closing
/// quote. Raw control characters are refused, as JSON asks; `\u` escapes
/// cover the full range, a supplementary code point standing as a
/// surrogate pair.
pub open spec fn sp_string_body(s: Seq<char>, i: int) -> Option<(Seq<char>, int)>
    decreases s.len() - i,
{
    if !(0 <= i < s.len()) {
        None
    } else if s[i] == '"' {
        Some((Seq::empty(), i + 1))
    } else if s[i] == '\\' {
        if i + 1 < s.len() && s[i + 1] == 'u' {
            if i + 5 < s.len() && is_hex(s[i + 2]) && is_hex(s[i + 3]) && is_hex(s[i + 4])
                && is_hex(s[i + 5]) {
                let n = hex_val(s[i + 2]) * 4096 + hex_val(s[i + 3]) * 256 + hex_val(s[i + 4]) * 16
                    + hex_val(s[i + 5]);
                if 0xD800 <= n < 0xDC00 {
                    // a high surrogate must pair with a following low one
                    if i + 11 < s.len() && s[i + 6] == '\\' && s[i + 7] == 'u' && is_hex(s[i + 8])
                        && is_hex(s[i + 9]) && is_hex(s[i + 10]) && is_hex(s[i + 11]) {
                        let lo = hex_val(s[i + 8]) * 4096 + hex_val(s[i + 9]) * 256 + hex_val(
                            s[i + 10],
                        ) * 16 + hex_val(s[i + 11]);
                        if 0xDC00 <= lo < 0xE000 {
                            let m = 0x10000 + (n - 0xD800) * 0x400 + (lo - 0xDC00);
                            match sp_string_body(s, i + 12) {
                                Some((t, j)) => Some((seq![m as char] + t, j)),
                                None => None,
                            }
                        } else {
                            None
                        }
                    } else {
                        None
                    }
                } else if 0xDC00 <= n < 0xE000 {
                    // a lone low surrogate stands for no character
                    None
                } else {
                    match sp_string_body(s, i + 6) {
                        Some((t, j)) => Some((seq![n as char] + t, j)),
                        None => None,
                    }
                }
            } else {
                None
            }
        } else if i + 1 < s.len() && esc_simple(s[i + 1]) is Some {
            match sp_string_body(s, i + 2) {
                Some((t, j)) => Some((seq![esc_simple(s[i + 1])->0] + t, j)),
                None => None,
            }
        } else {
            None
        }
    } else if is_control(s[i]) {
        None
    } else {
        match sp_string_body(s, i + 1) {
            Some((t, j)) => Some((seq![s[i]] + t, j)),
            None => None,
        }
    }
}

/// A string literal at `i` (which must hold the opening quote).
pub open spec fn sp_string(s: Seq<char>, i: int) -> Option<(Seq<char>, int)> {
    if 0 <= i < s.len() && s[i] == '"' {
        sp_string_body(s, i + 1)
    } else {
        None
    }
}

/// End of the run of decimal digits starting at `i`.
pub open spec fn sp_digits_end(s: Seq<char>, i: int) -> int
    decreases s.len() - i,
{
    if 0 <= i < s.len() && is_digit(s[i]) {
        sp_digits_end(s, i + 1)
    } else {
        i
    }
}

/// A number literal at `i`: optional minus, an integer part without a
/// superfluous leading zero, then optional fraction and exponent.
/// The result keeps the raw text; nothing is evaluated here.
pub open spec fn sp_number(s: Seq<char>, i: int) -> Option<(Seq<char>, int)> {
    let i1 = if 0 <= i < s.len() && s[i] == '-' {
        i + 1
    } else {
        i
    };
    if !(0 <= i1 < s.len() && is_digit(s[i1])) {
        None
    } else {
        let i2 = if s[i1] == '0' {
            i1 + 1
        } else {
            sp_digits_end(s, i1)
        };
        let i3 = if i2 < s.len() && s[i2] == '.' {
            if i2 + 1 < s.len() && is_digit(s[i2 + 1]) {
                sp_digits_end(s, i2 + 1)
            } else {
                -1
            }
        } else {
            i2
        };
        if i3 < 0 {
            None
        } else {
            let i4 = if i3 < s.len() && (s[i3] == 'e' || s[i3] == 'E') {
                let ie = if i3 + 1 < s.len() && (s[i3 + 1] == '+' || s[i3 + 1] == '-') {
                    i3 + 2
                } else {
                    i3 + 1
                };
                if ie < s.len() && is_digit(s[ie]) {
                    sp_digits_end(s, ie)
                } else {
                    -1
                }
            } else {
                i3
            };
            if i4 < 0 {
                None
            } else {
                Some((s.subrange(i, i4), i4))
            }
        }
    }
}

/// Four-character keyword test, for `null` and `true`.
pub open spec fn at_kw4(s: Seq<char>, i: int, c0: char, c1: char, c2: char, c3: char) -> bool {
    &&& 0 <= i
    &&& i + 4 <= s.len()
    &&& s[i] == c0
    &&& s[i + 1] == c1
    &&& s[i + 2] == c2
    &&& s[i + 3] == c3
}

/// The bound on nesting of arrays and objects within one another. A
/// container whose contents would have to lie deeper does not parse.
pub const MAX_NESTING: u32 = 128;

/// A JSON value at `i`, whose own containers may nest to `depth` further
/// levels. Returns the value and the position just after it.
pub open spec fn sp_value(s: Seq<char>, i: int, depth: int) -> Option<(JsonV, int)>
    decreases s.len() - i, 0int,
{
    if !(0 <= i < s.len()) {
        None
    } else if s[i] == 'n' {
        if at_kw4(s, i, 'n', 'u', 'l', 'l') {
            Some((JsonV::Null, i + 4))
        } else {
            None
        }
    } else if s[i] == 't' {
        if at_kw4(s, i, 't', 'r', 'u', 'e') {
            Some((JsonV::Bool(true), i + 4))
        } else {
            None
        }
    } else if s[i] == 'f' {
        if i + 5 <= s.len() && s[i + 1] == 'a' && s[i + 2] == 'l' && s[i + 3] == 's' && s[i + 4]
            == 'e' {
            Some((JsonV::Bool(false), i + 5))
        } else {
            None
        }
    } else if s[i] == '"' {
        match sp_string(s, i) {
            Some((t, j)) => Some((JsonV::Str(t), j)),
            None => None,
        }
    } else if s[i] == '[' {
        if depth <= 0 {
            None
        } else {
            let j = sp_ws(s, i + 1);
            if j < s.len() && s[j] == ']' {
                Some((JsonV::Arr(Seq::empty()), j + 1))
            } else if j <= i {
                // never taken: skipping whitespace cannot move backwards;
                // the branch bounds the recursion
                None
            } else {
                proof {
                    lemma_sp_ws_bounds(s, i + 1);
                }
                match sp_elements(s, j, depth - 1) {
                    Some((vs, k)) => Some((JsonV::Arr(vs), k)),
                    None => None,
                }
            }
        }
    } else if s[i] == '{' {
        if depth <= 0 {
            None
        } else {
            let j = sp_ws(s, i + 1);
            if j < s.len() && s[j] == '}' {
                Some((JsonV::Obj(Seq::empty()), j + 1))
            } else if j <= i {
                // never taken, as in the array case above
                None
            } else {
                proof {
                    lemma_sp_ws_bounds(s, i + 1);
                }
                match sp_members(s, j, depth - 1) {
                    Some((ms, k)) => Some((JsonV::Obj(ms), k)),
                    None => None,
                }
            }
        }
    } else if s[i] == '-' || is_digit(s[i]) {
        match sp_number(s, i) {
            Some((t, j)) => Some((JsonV::Num(t), j)),
            None => None,
        }
    } else {
        None
    }
}

/// One or more comma-separated array elements starting at `i`, each
/// nesting to `depth` further levels, up to and including the closing
/// bracket.
pub open spec fn sp_elements(s: Seq<char>, i: int, depth: int) -> Option<(Seq<JsonV>, int)>
    decreases s.len() - i, 1int,
{
    if !(0 <= i <= s.len()) {
        None
    } else {
        match sp_value(s, i, depth) {
            None => None,
            Some((v, j)) => {
                let k = sp_ws(s, j);
                if k < s.len() && s[k] == ']' {
                    Some((seq![v], k + 1))
                } else if k < s.len() && s[k] == ',' {
                    let m = sp_ws(s, k + 1);
                    if m <= i {
                        // never taken: positions only grow; bounds the recursion
                        None
                    } else {
                        proof {
                            lemma_sp_ws_bounds(s, k + 1);
                        }
                        match sp_elements(s, m, depth) {
                            Some((vs, p)) => Some((seq![v] + vs, p)),
                            None => None,
                        }
                    }
                } else {
                    None
                }
            },
        }
    }
}

/// One or more comma-separated object members starting at `i` (which must
/// hold the opening quote of a key), each value nesting to `depth`
/// further levels, up to and including the closing brace.
pub open spec fn sp_members(s: Seq<char>, i: int, depth: int) -> Option<
    (Seq<(Seq<char>, JsonV)>, int),
>
    decreases s.len() - i, 1int,
{
    if !(0 <= i <= s.len()) {
        None
    } else {
        match sp_string(s, i) {
            None => None,
            Some((key, j)) => {
                let c = sp_ws(s, j);
                if !(c < s.len() && s[c] == ':') {
                    None
                } else {
                    let vi = sp_ws(s, c + 1);
                    if vi <= i {
                        // never taken: positions only grow; bounds the recursion
                        None
                    } else {
                        proof {
                            lemma_sp_ws_bounds(s, c + 1);
                        }
                        match sp_value(s, vi, depth) {
                            None => None,
                            Some((v, k)) => {
                                let e = sp_ws(s, k);
                                if e < s.len() && s[e] == '}' {
                                    Some((seq![(key, v)], e + 1))
                                } else if e < s.len() && s[e] == ',' {
                                    let m = sp_ws(s, e + 1);
                                    if m <= i {
                                        // never taken, as above
                                        None
                                    } else {
                                        proof {
                                            lemma_sp_ws_bounds(s, e + 1);
                                        }
                                        match sp_members(s, m, depth) {
                                            Some((ms, p)) => Some((seq![(key, v)] + ms, p)),
                                            None => None,
                                        }
                                    }
                                } else {
                                    None
                                }
                            },
                        }
                    }
                }
            },
        }
    }
}

/// A whole document: one value, surrounded by whitespace, consuming all
/// of the input and nesting no deeper than `MAX_NESTING`. This is what
/// "the body is valid JSON" means here.
pub open spec fn sp_document(s: Seq<char>) -> Option<JsonV> {
    match sp_value(s, sp_ws(s, 0), MAX_NESTING as int) {
        Some((v, j)) => if sp_ws(s, j) == s.len() {
            Some(v)
        } else {
            None
        },
        None => None,
    }
}

fn e_is_ws(c: char) -> (r: bool)
    ensures
        r == is_ws(c),
{
    c == ' ' || c == '\t' || c == '\n' || c == '\r'
}

fn e_is_digit(c: char) -> (r: bool)
    ensures
        r == is_digit(c),
{
    '0' <= c && c <= '9'
}

fn e_is_hex(c: char) -> (r: bool)
    ensures
        r == is_hex(c),
{
    ('0' <= c && c <= '9') || ('a' <= c && c <= 'f') || ('A' <= c && c <= 'F')
}

fn e_hex_val(c: char) -> (r: u32)
    requires
        is_hex(c),
    ensures
        r as int == hex_val(c),
        r < 16,
{
    if '0' <= c && c <= '9' {
        c as u32 - '0' as u32
    } else if 'a' <= c && c <= 'f' {
        c as u32 - 'a' as u32 + 10
    } else {
        c as u32 - 'A' as u32 + 10
    }
}

fn p_ws(s: &Vec<char>, i: usize) -> (r: usize)
    requires
        i <= s@.len(),
    ensures
        r as int == sp_ws(s@, i as int),
        i <= r <= s@.len(),
{
    let mut k = i;
    while k < s.len() && e_is_ws(s[k])
        invariant
            i <= k <= s@.len(),
            sp_ws(s@, i as int) == sp_ws(s@, k as int),
        decreases s@.len() - k,
    {
        k = k + 1;
    }
    k
}

fn p_digits_end(s: &Vec<char>, i: usize) -> (r: usize)
    requires
        i <= s@.len(),
    ensures
        r as int == sp_digits_end(s@, i as int),
        i <= r <= s@.len(),
        i < s@.len() && is_digit(s@[i as int]) ==> i < r,
{
    let mut k = i;
    while k < s.len() && e_is_digit(s[k])
        invariant
            i <= k <= s@.len(),
            sp_digits_end(s@, i as int) == sp_digits_end(s@, k as int),
        decreases s@.len() - k,
    {
        k = k + 1;
    }
    k
}

/// Copy of `s[from..to]` as a fresh vector.
fn copy_range(s: &Vec<char>, from: usize, to: usize) -> (r: Vec<char>)
    requires
        from <= to <= s@.len(),
    ensures
        r@ == s@.subrange(from as int, to as int),
{
    let mut out: Vec<char> = Vec::new();
    let mut k = from;
    while k < to
        invariant
            from <= k <= to <= s@.len(),
            out@ == s@.subrange(from as int, k as int),
        decreases to - k,
    {
        out.push(s[k]);
        proof {
            assert(out@ =~= s@.subrange(from as int, k as int + 1));
        }
        k = k + 1;
    }
    out
}

/// Relies on char::from_u32: the character with the given code point,
/// exactly for Unicode scalar values (not a surrogate, at most 0x10FFFF).
#[verifier::external_body]
fn char_from_u32(n: u32) -> (r: Option<char>)
    ensures
        (n < 0xD800 || (0xE000 <= n && n < 0x110000)) <==> r is Some,
        r matches Some(c) ==> c == n as char,
{
    char::from_u32(n)
}

fn p_string_body(s: &Vec<char>, i: usize) -> (r: Option<(Vec<char>, usize)>)
    requires
        i <= s@.len(),
    ensures
        match r {
            Some((t, j)) => sp_string_body(s@, i as int) == Some((t@, j as int)) && i < j
                <= s@.len(),
            None => sp_string_body(s@, i as int) is None,
        },
    decreases s@.len() - i,
{
    if i >= s.len() {
        return None;
    }
    let c = s[i];
    if c == '"' {
        let empty: Vec<char> = Vec::new();
        proof {
            assert(empty@ =~= Seq::<char>::empty());
        }
        Some((empty, i + 1))
    } else if c == '\\' {
        if s.len() - i >= 2 && s[i + 1] == 'u' {
            if s.len() - i >= 6 && e_is_hex(s[i + 2]) && e_is_hex(s[i + 3]) && e_is_hex(s[i + 4])
                && e_is_hex(s[i + 5]) {
                let n: u32 = e_hex_val(s[i + 2]) * 4096 + e_hex_val(s[i + 3]) * 256 + e_hex_val(
                    s[i + 4],
                ) * 16 + e_hex_val(s[i + 5]);
                if 0xD800 <= n && n < 0xDC00 {
                    if s.len() - i >= 12 && s[i + 6] == '\\' && s[i + 7] == 'u' && e_is_hex(
                        s[i + 8],
                    ) && e_is_hex(s[i + 9]) && e_is_hex(s[i + 10]) && e_is_hex(s[i + 11]) {
                        let lo: u32 = e_hex_val(s[i + 8]) * 4096 + e_hex_val(s[i + 9]) * 256
                            + e_hex_val(s[i + 10]) * 16 + e_hex_val(s[i + 11]);
                        if 0xDC00 <= lo && lo < 0xE000 {
                            let m: u32 = 0x10000 + (n - 0xD800) * 0x400 + (lo - 0xDC00);
                            match char_from_u32(m) {
                                Some(decoded) => match p_string_body(s, i + 12) {
                                    Some((mut t, j)) => {
                                        t.insert(0, decoded);
                                        proof {
                                            assert(t@ =~= seq![decoded] + t@.subrange(
                                                1,
                                                t@.len() as int,
                                            ));
                                        }
                                        Some((t, j))
                                    },
                                    None => None,
                                },
                                None => {
                                    proof {
                                        assert(false);
                                    }
                                    None
                                },
                            }
                        } else {
                            None
                        }
                    } else {
                        None
                    }
                } else if 0xDC00 <= n && n < 0xE000 {
                    None
                } else {
                    match char_from_u32(n) {
                        Some(decoded) => match p_string_body(s, i + 6) {
                            Some((mut t, j)) => {
                                t.insert(0, decoded);
                                proof {
                                    assert(t@ =~= seq![decoded] + t@.subrange(1, t@.len() as int));
                                }
                                Some((t, j))
                            },
                            None => None,
                        },
                        None => {
                            proof {
                                assert(false);
                            }
                            None
                        },
                    }
                }
            } else {
                None
            }
        } else if s.len() - i >= 2 {
            let e = s[i + 1];
            let dec: Option<char> = if e == '"' {
                Some('"')
            } else if e == '\\' {
                Some('\\')
            } else if e == '/' {
                Some('/')
            } else if e == 'n' {
                Some('\n')
            } else if e == 't' {
                Some('\t')
            } else if e == 'r' {
                Some('\r')
            } else if e == 'b' {
                Some('\u{0008}')
            } else if e == 'f' {
                Some('\u{000C}')
            } else {
                None
            };
            proof {
                assert(dec == esc_simple(s@[i as int + 1]));
            }
            match dec {
                Some(d) => {
                    match p_string_body(s, i + 2) {
                        Some((mut t, j)) => {
                            t.insert(0, d);
                            proof {
                                assert(t@ =~= seq![d] + t@.subrange(1, t@.len() as int));
                            }
                            Some((t, j))
                        },
                        None => None,
                    }
                },
                None => None,
            }
        } else {
            None
        }
    } else if (c as u32) < 32 {
        None
    } else {
        match p_string_body(s, i + 1) {
            Some((mut t, j)) => {
                t.insert(0, c);
                proof {
                    assert(t@ =~= seq![c] + t@.subrange(1, t@.len() as int));
                }
                Some((t, j))
            },
            None => None,
        }
    }
}

fn p_string(s: &Vec<char>, i: usize) -> (r: Option<(Vec<char>, usize)>)
    requires
        i <= s@.len(),
    ensures
        match r {
            Some((t, j)) => sp_string(s@, i as int) == Some((t@, j as int)) && i < j <= s@.len(),
            None => sp_string(s@, i as int) is None,
        },
{
    if i < s.len() && s[i] == '"' {
        p_string_body(s, i + 1)
    } else {
        None
    }
}

fn p_number(s: &Vec<char>, i: usize) -> (r: Option<(Vec<char>, usize)>)
    requires
        i <= s@.len(),
    ensures
        match r {
            Some((t, j)) => sp_number(s@, i as int) == Some((t@, j as int)) && i < j <= s@.len(),
            None => sp_number(s@, i as int) is None,
        },
{
    let i1 = if i < s.len() && s[i] == '-' {
        i + 1
    } else {
        i
    };
    if !(i1 < s.len() && e_is_digit(s[i1])) {
        return None;
    }
    let i2 = if s[i1] == '0' {
        i1 + 1
    } else {
        p_digits_end(s, i1)
    };
    let i3 = if i2 < s.len() && s[i2] == '.' {
        if i2 + 1 < s.len() && e_is_digit(s[i2 + 1]) {
            Some(p_digits_end(s, i2 + 1))
        } else {
            None
        }
    } else {
        Some(i2)
    };
    match i3 {
        None => None,
        Some(i3) => {
            let i4 = if i3 < s.len() && (s[i3] == 'e' || s[i3] == 'E') {
                let ie = if i3 + 1 < s.len() && (s[i3 + 1] == '+' || s[i3 + 1] == '-') {
                    i3 + 2
                } else {
                    i3 + 1
                };
                if ie < s.len() && e_is_digit(s[ie]) {
                    Some(p_digits_end(s, ie))
                } else {
                    None
                }
            } else {
                Some(i3)
            };
            match i4 {
                None => None,
                Some(i4) => Some((copy_range(s, i, i4), i4)),
            }
        },
    }
}

fn p_value(s: &Vec<char>, i: usize, depth: u32) -> (r: Option<(Json, usize)>)
    requires
        i <= s@.len(),
    ensures
        match r {
            Some((v, j)) => sp_value(s@, i as int, depth as int) == Some((v@, j as int)) && i < j
                <= s@.len(),
            None => sp_value(s@, i as int, depth as int) is None,
        },
    decreases s@.len() - i, 0int,
{
    if i >= s.len() {
        return None;
    }
    let c = s[i];
    if c == 'n' {
        if s.len() - i >= 4 && s[i + 1] == 'u' && s[i + 2] == 'l' && s[i + 3] == 'l' {
            Some((Json::Null, i + 4))
        } else {
            None
        }
    } else if c == 't' {
        if s.len() - i >= 4 && s[i + 1] == 'r' && s[i + 2] == 'u' && s[i + 3] == 'e' {
            Some((Json::Bool(true), i + 4))
        } else {
            None
        }
    } else if c == 'f' {
        if s.len() - i >= 5 && s[i + 1] == 'a' && s[i + 2] == 'l' && s[i + 3] == 's' && s[i + 4]
            == 'e' {
            Some((Json::Bool(false), i + 5))
        } else {
            None
        }
    } else if c == '"' {
        match p_string(s, i) {
            Some((t, j)) => Some((Json::Str(t), j)),
            None => None,
        }
    } else if c == '[' {
        if depth == 0 {
            None
        } else {
            let j = p_ws(s, i + 1);
            if j < s.len() && s[j] == ']' {
                let es: Vec<Json> = Vec::new();
                proof {
                    assert(vec_json_view(&es) =~= Seq::<JsonV>::empty());
                }
                Some((Json::Arr(es), j + 1))
            } else {
                match p_elements(s, j, depth - 1) {
                    Some((es, k)) => {
                        let ghost gv = vec_json_view(&es);
                        let out = Json::Arr(es);
                        proof {
                            assert(out@ matches JsonV::Arr(vs) && vs =~~= gv);
                        }
                        Some((out, k))
                    },
                    None => None,
                }
            }
        }
    } else if c == '{' {
        if depth == 0 {
            None
        } else {
            let j = p_ws(s, i + 1);
            if j < s.len() && s[j] == '}' {
                let ms: Vec<(Vec<char>, Json)> = Vec::new();
                proof {
                    assert(vec_members_view(&ms) =~= Seq::<(Seq<char>, JsonV)>::empty());
                }
                Some((Json::Obj(ms), j + 1))
            } else {
                match p_members(s, j, depth - 1) {
                    Some((ms, k)) => {
                        let ghost gv = vec_members_view(&ms);
                        let out = Json::Obj(ms);
                        proof {
                            assert(out@ matches JsonV::Obj(vs) && vs =~~= gv);
                        }
                        Some((out, k))
                    },
                    None => None,
                }
            }
        }
    } else if c == '-' || e_is_digit(c) {
        match p_number(s, i) {
            Some((t, j)) => Some((Json::Num(t), j)),
            None => None,
        }
    } else {
        None
    }
}

fn p_elements(s: &Vec<char>, i: usize, depth: u32) -> (r: Option<(Vec<Json>, usize)>)
    requires
        i <= s@.len(),
    ensures
        match r {
            Some((es, k)) => sp_elements(s@, i as int, depth as int) == Some(
                (vec_json_view(&es), k as int),
            ) && i < k <= s@.len(),
            None => sp_elements(s@, i as int, depth as int) is None,
        },
    decreases s@.len() - i, 1int,
{
    match p_value(s, i, depth) {
        None => None,
        Some((v, j)) => {
            let k = p_ws(s, j);
            if k < s.len() && s[k] == ']' {
                let mut es: Vec<Json> = Vec::new();
                es.push(v);
                proof {
                    assert(vec_json_view(&es) =~= seq![es[0int]@]);
                }
                Some((es, k + 1))
            } else if k < s.len() && s[k] == ',' {
                let m = p_ws(s, k + 1);
                match p_elements(s, m, depth) {
                    Some((mut es, p)) => {
                        let ghost rest_view = vec_json_view(&es);
                        es.insert(0, v);
                        proof {
                            assert(vec_json_view(&es) =~= seq![es[0int]@] + rest_view);
                        }
                        Some((es, p))
                    },
                    None => None,
                }
            } else {
                None
            }
        },
    }
}

fn p_members(s: &Vec<char>, i: usize, depth: u32) -> (r: Option<
    (Vec<(Vec<char>, Json)>, usize),
>)
    requires
        i <= s@.len(),
    ensures
        match r {
            Some((ms, k)) => sp_members(s@, i as int, depth as int) == Some(
                (vec_members_view(&ms), k as int),
            ) && i < k <= s@.len(),
            None => sp_members(s@, i as int, depth as int) is None,
        },
    decreases s@.len() - i, 1int,
{
    match p_string(s, i) {
        None => None,
        Some((key, j)) => {
            let c = p_ws(s, j);
            if !(c < s.len() && s[c] == ':') {
                None
            } else {
                let vi = p_ws(s, c + 1);
                match p_value(s, vi, depth) {
                    None => None,
                    Some((v, k)) => {
                        let e = p_ws(s, k);
                        if e < s.len() && s[e] == '}' {
                            let mut ms: Vec<(Vec<char>, Json)> = Vec::new();
                            ms.push((key, v));
                            proof {
                                assert(vec_members_view(&ms) =~= seq![
                                    (ms[0int].0@, ms[0int].1@),
                                ]);
                            }
                            Some((ms, e + 1))
                        } else if e < s.len() && s[e] == ',' {
                            let m = p_ws(s, e + 1);
                            match p_members(s, m, depth) {
                                Some((mut ms, p)) => {
                                    let ghost rest_view = vec_members_view(&ms);
                                    ms.insert(0, (key, v));
                                    proof {
                                        assert(vec_members_view(&ms) =~= seq![
                                            (ms[0int].0@, ms[0int].1@),
                                        ] + rest_view);
                                    }
                                    Some((ms, p))
                                },
                                None => None,
                            }
                        } else {
                            None
                        }
                    },
                }
            }
        },
    }
}

/// Turn a `&str` into its characters, for position-based parsing.
pub fn str_to_chars(s: &str) -> (v: Vec<char>)
    ensures
        v@ == s@,
{
    let n = s.unicode_len();
    let mut v: Vec<char> = Vec::new();
    let mut k: usize = 0;
    while k < n
        invariant
            k <= n,
            n == s@.len(),
            v@ == s@.subrange(0, k as int),
        decreases n - k,
    {
        v.push(s.get_char(k));
        proof {
            assert(v@ =~= s@.subrange(0, k as int + 1));
        }
        k = k + 1;
    }
    proof {
        assert(v@ =~= s@);
    }
    v
}

/// Parse a whole response body. Returns the value exactly when the body
/// lies in the grammar `sp_document` describes, and nothing otherwise.
pub fn parse_document(body: &str) -> (r: Option<Json>)
    ensures
        match r {
            Some(v) => sp_document(body@) == Some(v@),
            None => sp_document(body@) is None,
        },
{
    let s = str_to_chars(body);
    let i = p_ws(&s, 0);
    match p_value(&s, i, MAX_NESTING) {
        None => None,
        Some((v, j)) => {
            let k = p_ws(&s, j);
            if k == s.len() {
                Some(v)
            } else {
                None
            }
        },
    }
}


/// First value stored under `key`, walking members in wire order. A key
/// repeated within one object is read at its first occurrence; later
/// occurrences are ignored.
pub open spec fn sv_get(ms: Seq<(Seq<char>, JsonV)>, key: Seq<char>) -> Option<JsonV>
    decreases ms.len(),
{
    if ms.len() == 0 {
        None
    } else if ms[0].0 == key {
        Some(ms[0].1)
    } else {
        sv_get(ms.drop_first(), key)
    }
}

/// Whether `v` spells the same characters as `s`.
pub fn chars_eq_str(v: &Vec<char>, s: &str) -> (r: bool)
    ensures
        r == (v@ == s@),
{
    let n = s.unicode_len();
    if v.len() != n {
        return false;
    }
    let mut k: usize = 0;
    while k < n
        invariant
            k <= n,
            n == s@.len() == v@.len(),
            forall|m: int| 0 <= m < k ==> v@[m] == s@[m],
        decreases n - k,
    {
        if v[k] != s.get_char(k) {
            return false;
        }
        k = k + 1;
    }
    proof {
        assert(v@ =~= s@);
    }
    true
}

/// First member of `ms` stored under `key`, if any.
pub fn obj_get<'a>(ms: &'a Vec<(Vec<char>, Json)>, key: &str) -> (r: Option<&'a Json>)
    ensures
        match r {
            Some(j) => sv_get(vec_members_view(ms), key@) == Some(j@),
            None => sv_get(vec_members_view(ms), key@) is None,
        },
{
    let ghost full = vec_members_view(ms);
    proof {
        assert(full.skip(0) =~= full);
    }
    let mut k: usize = 0;
    while k < ms.len()
        invariant
            k <= ms@.len(),
            full == vec_members_view(ms),
            full.len() == ms@.len(),
            sv_get(full, key@) == sv_get(full.skip(k as int), key@),
        decreases ms@.len() - k,
    {
        if chars_eq_str(&ms[k].0, key) {
            proof {
                assert(full.skip(k as int)[0] == full[k as int]);
            }
            return Some(&ms[k].1);
        }
        proof {
            assert(full.skip(k as int)[0] == full[k as int]);
            assert(full.skip(k as int).drop_first() =~= full.skip(k as int + 1));
        }
        k = k + 1;
    }
    proof {
        assert(full.skip(k as int).len() == 0);
    }
    None
}

/// Relies on String::push: it appends the given character and nothing more.
#[verifier::external_body]
fn push_char(s: &mut String, c: char)
    ensures
        final(s)@ == old(s)@.push(c),
{
    s.push(c);
}

/// Owned string spelling the given characters.
pub fn chars_to_string(v: &Vec<char>) -> (s: String)
    ensures
        s@ == v@,
{
    let mut s = String::new();
    let mut k: usize = 0;
    while k < v.len()
        invariant
            k <= v@.len(),
            s@ == v@.subrange(0, k as int),
        decreases v@.len() - k,
    {
        push_char(&mut s, v[k]);
        proof {
            assert(s@ =~= v@.subrange(0, k as int + 1));
        }
        k = k + 1;
    }
    proof {
        assert(s@ =~= v@);
    }
    s
}

/// Value of a run of decimal digits, most significant first.
pub open spec fn dec_val(t: Seq<char>) -> int
    decreases t.len(),
{
    if t.len() == 0 {
        0
    } else {
        dec_val(t.drop_last()) * 10 + (t.last() as int - '0' as int)
    }
}

pub open spec fn all_digits(t: Seq<char>) -> bool {
    forall|k: int| 0 <= k < t.len() ==> #[trigger] is_digit(t[k])
}

/// Number text that stands for a `u64`: plain digits, no sign, fraction
/// or exponent, and a value the type can hold.
pub open spec fn is_u64_text(t: Seq<char>) -> bool {
    t.len() > 0 && all_digits(t) && dec_val(t) <= u64::MAX
}

pub proof fn lemma_dec_val_nonneg(t: Seq<char>)
    requires
        all_digits(t),
    ensures
        dec_val(t) >= 0,
    decreases t.len(),
{
    if t.len() > 0 {
        assert(is_digit(t[t.len() - 1]));
        assert(all_digits(t.drop_last()));
        lemma_dec_val_nonneg(t.drop_last());
    }
}

pub proof fn lemma_dec_val_prefix(t: Seq<char>, k: int)
    requires
        all_digits(t),
        0 <= k <= t.len(),
    ensures
        dec_val(t.subrange(0, k)) <= dec_val(t),
    decreases t.len() - k,
{
    if k < t.len() {
        let a = t.subrange(0, k);
        let b = t.subrange(0, k + 1);
        assert(b.drop_last() =~= a);
        assert(all_digits(a));
        lemma_dec_val_nonneg(a);
        assert(is_digit(b.last()));
        lemma_dec_val_prefix(t, k + 1);
    } else {
        assert(t.subrange(0, k) =~= t);
    }
}

/// The `u64` a digit run stands for, when there is one.
pub fn chars_to_u64(t: &Vec<char>) -> (r: Option<u64>)
    ensures
        match r {
            Some(n) => is_u64_text(t@) && n as int == dec_val(t@),
            None => !is_u64_text(t@),
        },
{
    if t.len() == 0 {
        return None;
    }
    let mut acc: u64 = 0;
    let mut k: usize = 0;
    while k < t.len()
        invariant
            k <= t@.len(),
            forall|m: int| 0 <= m < k ==> #[trigger] is_digit(t@[m]),
            acc as int == dec_val(t@.subrange(0, k as int)),
        decreases t@.len() - k,
    {
        let c = t[k];
        if !e_is_digit(c) {
            return None;
        }
        let d: u64 = (c as u32 - '0' as u32) as u64;
        proof {
            let a = t@.subrange(0, k as int);
            let b = t@.subrange(0, k as int + 1);
            assert(b.drop_last() =~= a);
            assert(b.last() == t@[k as int]);
        }
        if acc > (u64::MAX - d) / 10 {
            proof {
                let b = t@.subrange(0, k as int + 1);
                assert(dec_val(b) > u64::MAX) by {
                    assert(dec_val(b) == acc as int * 10 + d);
                };
                if all_digits(t@) {
                    lemma_dec_val_prefix(t@, k as int + 1);
                }
            }
            return None;
        }
        acc = acc * 10 + d;
        k = k + 1;
    }
    proof {
        assert(t@.subrange(0, t@.len() as int) =~= t@);
    }
    Some(acc)
}


/// The view keeps the variant: a parsed value and its specification
/// image always take the same arm of a `match`.
pub proof fn lemma_view_variant(j: &Json)
    ensures
        (j is Null) == (j@ is Null),
        (j is Bool) == (j@ is Bool),
        (j is Num) == (j@ is Num),
        (j is Str) == (j@ is Str),
        (j is Arr) == (j@ is Arr),
        (j is Obj) == (j@ is Obj),
{
    match j {
        Json::Null => {},
        Json::Bool(_) => {},
        Json::Num(_) => {},
        Json::Str(_) => {},
        Json::Arr(_) => {},
        Json::Obj(_) => {},
    }
}

} // verus!
