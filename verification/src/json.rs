//! JSON parsing.
//!
//! The sensor payload is UTF-8 JSON. The grammar here covers objects,
//! arrays, strings with the usual escapes (including `\uXXXX` for scalars of
//! the basic plane outside the surrogate range), numbers, booleans and null.
//! Number tokens are kept as their source text: which readings a payload
//! yields never depends on a number's floating-point value, only on its
//! presence and on the integral status codes, so the token text is the exact
//! representation.
//!
//! The grammar is written once as spec functions over the byte sequence; the
//! executable parser is proved to return exactly what the spec functions
//! denote.

use crate::text::utf8_to_string;
use vstd::prelude::*;
use vstd::slice::slice_subrange;
use vstd::slice::slice_to_vec;
use vstd::utf8::encode_utf8;
use vstd::utf8::valid_utf8;

verus! {

broadcast use vstd::std_specs::vec::axiom_vec_index_decreases;

/// A parsed JSON value. Number tokens keep their source text.
#[derive(Debug)]
pub enum Json {
    Null,
    Bool(bool),
    Num(String),
    Str(String),
    Arr(Vec<Json>),
    Obj(Vec<(String, Json)>),
}

/// Mathematical model of a JSON value: strings and number tokens as their
/// UTF-8 bytes.
pub enum JsonV {
    Null,
    Bool(bool),
    Num(Seq<u8>),
    Str(Seq<u8>),
    Arr(Seq<JsonV>),
    Obj(Seq<(Seq<u8>, JsonV)>),
}

impl Json {
    /// The model a parsed value denotes.
    pub open spec fn view_v(self) -> JsonV
        decreases self,
    {
        match self {
            Json::Null => JsonV::Null,
            Json::Bool(b) => JsonV::Bool(b),
            Json::Num(t) => JsonV::Num(encode_utf8(t@)),
            Json::Str(t) => JsonV::Str(encode_utf8(t@)),
            Json::Arr(v) => JsonV::Arr(
                Seq::new(
                    v@.len(),
                    |k: int|
                        if 0 <= k < v@.len() {
                            v@[k].view_v()
                        } else {
                            JsonV::Null
                        },
                ),
            ),
            Json::Obj(v) => JsonV::Obj(
                Seq::new(
                    v@.len(),
                    |k: int|
                        if 0 <= k < v@.len() {
                            (encode_utf8(v@[k].0@), v@[k].1.view_v())
                        } else {
                            (Seq::empty(), JsonV::Null)
                        },
                ),
            ),
        }
    }
}

/// The models of a sequence of parsed values.
pub open spec fn jv_seq(v: Seq<Json>) -> Seq<JsonV> {
    Seq::new(v.len(), |k: int| v[k].view_v())
}

/// The models of a sequence of parsed object members.
pub open spec fn jv_members(v: Seq<(String, Json)>) -> Seq<(Seq<u8>, JsonV)> {
    Seq::new(v.len(), |k: int| (encode_utf8(v[k].0@), v[k].1.view_v()))
}

pub open spec fn is_ws(b: u8) -> bool {
    b == 0x20 || b == 0x09 || b == 0x0A || b == 0x0D
}

pub open spec fn is_digit(b: u8) -> bool {
    0x30 <= b <= 0x39
}

/// The first position at or after `i` that does not hold whitespace.
pub open spec fn sp_ws(s: Seq<u8>, i: int) -> int
    decreases s.len() - i,
{
    if 0 <= i < s.len() && is_ws(s[i]) {
        sp_ws(s, i + 1)
    } else {
        i
    }
}

/// The first position at or after `i` that does not hold a decimal digit.
pub open spec fn sp_digits(s: Seq<u8>, i: int) -> int
    decreases s.len() - i,
{
    if 0 <= i < s.len() && is_digit(s[i]) {
        sp_digits(s, i + 1)
    } else {
        i
    }
}

/// The value of a hexadecimal digit byte.
pub open spec fn sp_hex_val(b: u8) -> Option<int> {
    if 0x30 <= b <= 0x39 {
        Some(b - 0x30)
    } else if 0x41 <= b <= 0x46 {
        Some(b - 0x41 + 10)
    } else if 0x61 <= b <= 0x66 {
        Some(b - 0x61 + 10)
    } else {
        None
    }
}

/// The UTF-8 encoding of a basic-plane scalar value.
pub open spec fn sp_utf8_bytes(c: int) -> Seq<u8>
    recommends
        0 <= c < 0x10000,
        !(0xD800 <= c < 0xE000),
{
    if c < 0x80 {
        seq![c as u8]
    } else if c < 0x800 {
        seq![(0xC0 + c / 64) as u8, (0x80 + c % 64) as u8]
    } else {
        seq![(0xE0 + c / 4096) as u8, (0x80 + (c / 64) % 64) as u8, (0x80 + c % 64) as u8]
    }
}

/// The bytes an escape denotes and the position after it, for `i` standing
/// right after a backslash.
pub open spec fn sp_escape(s: Seq<u8>, i: int) -> Option<(Seq<u8>, int)> {
    if !(0 <= i < s.len()) {
        None
    } else {
        let b = s[i];
        if b == 0x22 {
            Some((seq![0x22u8], i + 1))
        } else if b == 0x5C {
            Some((seq![0x5Cu8], i + 1))
        } else if b == 0x2F {
            Some((seq![0x2Fu8], i + 1))
        } else if b == 0x62 {
            Some((seq![0x08u8], i + 1))
        } else if b == 0x66 {
            Some((seq![0x0Cu8], i + 1))
        } else if b == 0x6E {
            Some((seq![0x0Au8], i + 1))
        } else if b == 0x72 {
            Some((seq![0x0Du8], i + 1))
        } else if b == 0x74 {
            Some((seq![0x09u8], i + 1))
        } else if b == 0x75 {
            if i + 5 <= s.len() {
                match (sp_hex_val(s[i + 1]), sp_hex_val(s[i + 2]), sp_hex_val(s[i + 3]), sp_hex_val(
                    s[i + 4],
                )) {
                    (Some(h1), Some(h2), Some(h3), Some(h4)) => {
                        let c = h1 * 4096 + h2 * 256 + h3 * 16 + h4;
                        if 0xD800 <= c < 0xE000 {
                            None
                        } else {
                            Some((sp_utf8_bytes(c), i + 5))
                        }
                    },
                    _ => None,
                }
            } else {
                None
            }
        } else {
            None
        }
    }
}

/// The unescaped content bytes of a string body starting at `i` (right after
/// the opening quote) and the position after the closing quote.
pub open spec fn sp_string_body(s: Seq<u8>, i: int) -> Option<(Seq<u8>, int)>
    decreases s.len() - i,
{
    if !(0 <= i < s.len()) {
        None
    } else {
        let b = s[i];
        if b == 0x22 {
            Some((Seq::empty(), i + 1))
        } else if b == 0x5C {
            match sp_escape(s, i + 1) {
                None => None,
                Some((e, j)) => if j <= i + 1 || j > s.len() {
                    None
                } else {
                    match sp_string_body(s, j) {
                        None => None,
                        Some((rest, k)) => Some((e + rest, k)),
                    }
                },
            }
        } else if b < 0x20 {
            None
        } else {
            match sp_string_body(s, i + 1) {
                None => None,
                Some((rest, k)) => Some((seq![b] + rest, k)),
            }
        }
    }
}

/// A string at `i` (at its opening quote): its content bytes, which must be
/// valid UTF-8, and the position after the closing quote.
pub open spec fn sp_string(s: Seq<u8>, i: int) -> Option<(Seq<u8>, int)> {
    if 0 <= i < s.len() && s[i] == 0x22 {
        match sp_string_body(s, i + 1) {
            None => None,
            Some((c, k)) => if valid_utf8(c) {
                Some((c, k))
            } else {
                None
            },
        }
    } else {
        None
    }
}

/// A number token at `i`: its text bytes and the position after it.
pub open spec fn sp_number(s: Seq<u8>, i: int) -> Option<(Seq<u8>, int)> {
    if !(0 <= i < s.len()) {
        None
    } else {
        let j0 = if s[i] == 0x2D {
            i + 1
        } else {
            i
        };
        if !(j0 < s.len() && is_digit(s[j0])) {
            None
        } else {
            let j1 = if s[j0] == 0x30 {
                j0 + 1
            } else {
                sp_digits(s, j0)
            };
            let j2 = if j1 < s.len() && s[j1] == 0x2E {
                let jf = sp_digits(s, j1 + 1);
                if jf == j1 + 1 {
                    j1
                } else {
                    jf
                }
            } else {
                j1
            };
            let j3 = if j2 < s.len() && (s[j2] == 0x65 || s[j2] == 0x45) {
                let js = if j2 + 1 < s.len() && (s[j2 + 1] == 0x2B || s[j2 + 1] == 0x2D) {
                    j2 + 2
                } else {
                    j2 + 1
                };
                let je = sp_digits(s, js);
                if je == js {
                    j2
                } else {
                    je
                }
            } else {
                j2
            };
            Some((s.subrange(i, j3), j3))
        }
    }
}

/// A value at `i`: object, array, string, number, boolean or null.
pub open spec fn sp_value(s: Seq<u8>, i: int) -> Option<(JsonV, int)>
    decreases s.len() - i, 0nat,
{
    if !(0 <= i < s.len()) {
        None
    } else {
        let b = s[i];
        if b == 0x7B {
            let j = sp_ws(s, i + 1);
            if j < i + 1 || j > s.len() {
                None
            } else if j < s.len() && s[j] == 0x7D {
                Some((JsonV::Obj(Seq::empty()), j + 1))
            } else {
                match sp_members(s, i + 1) {
                    None => None,
                    Some((m, k)) => Some((JsonV::Obj(m), k)),
                }
            }
        } else if b == 0x5B {
            let j = sp_ws(s, i + 1);
            if j < i + 1 || j > s.len() {
                None
            } else if j < s.len() && s[j] == 0x5D {
                Some((JsonV::Arr(Seq::empty()), j + 1))
            } else {
                match sp_elems(s, i + 1) {
                    None => None,
                    Some((v, k)) => Some((JsonV::Arr(v), k)),
                }
            }
        } else if b == 0x22 {
            match sp_string(s, i) {
                None => None,
                Some((c, j)) => Some((JsonV::Str(c), j)),
            }
        } else if b == 0x74 {
            if i + 4 <= s.len() && s[i + 1] == 0x72 && s[i + 2] == 0x75 && s[i + 3] == 0x65 {
                Some((JsonV::Bool(true), i + 4))
            } else {
                None
            }
        } else if b == 0x66 {
            if i + 5 <= s.len() && s[i + 1] == 0x61 && s[i + 2] == 0x6C && s[i + 3] == 0x73 && s[i
                + 4] == 0x65 {
                Some((JsonV::Bool(false), i + 5))
            } else {
                None
            }
        } else if b == 0x6E {
            if i + 4 <= s.len() && s[i + 1] == 0x75 && s[i + 2] == 0x6C && s[i + 3] == 0x6C {
                Some((JsonV::Null, i + 4))
            } else {
                None
            }
        } else {
            match sp_number(s, i) {
                None => None,
                Some((t, j)) => Some((JsonV::Num(t), j)),
            }
        }
    }
}

/// The elements of a non-empty array, with `i` right after the `[` or a `,`:
/// the element models and the position after the closing `]`.
pub open spec fn sp_elems(s: Seq<u8>, i: int) -> Option<(Seq<JsonV>, int)>
    decreases s.len() - i, 1nat,
{
    if !(0 <= i <= s.len()) {
        None
    } else {
        let j = sp_ws(s, i);
        if j < i || j > s.len() {
            None
        } else {
            match sp_value(s, j) {
                None => None,
                Some((v, k)) => if k <= j || k > s.len() {
                    None
                } else {
                    let m = sp_ws(s, k);
                    if m < k || m >= s.len() {
                        None
                    } else if s[m] == 0x2C {
                        match sp_elems(s, m + 1) {
                            None => None,
                            Some((rest, e)) => Some((seq![v] + rest, e)),
                        }
                    } else if s[m] == 0x5D {
                        Some((seq![v], m + 1))
                    } else {
                        None
                    }
                },
            }
        }
    }
}

/// The members of a non-empty object, with `i` right after the `{` or a `,`:
/// the key/value models in source order and the position after the closing
/// `}`.
pub open spec fn sp_members(s: Seq<u8>, i: int) -> Option<(Seq<(Seq<u8>, JsonV)>, int)>
    decreases s.len() - i, 1nat,
{
    if !(0 <= i <= s.len()) {
        None
    } else {
        let j = sp_ws(s, i);
        if j < i || j > s.len() {
            None
        } else {
            match sp_string(s, j) {
                None => None,
                Some((key, k)) => if k <= j || k > s.len() {
                    None
                } else {
                    let m = sp_ws(s, k);
                    if m < k || m >= s.len() {
                        None
                    } else if s[m] != 0x3A {
                        None
                    } else {
                        let n0 = sp_ws(s, m + 1);
                        if n0 < m + 1 || n0 > s.len() {
                            None
                        } else {
                            match sp_value(s, n0) {
                                None => None,
                                Some((v, q)) => if q <= n0 || q > s.len() {
                                    None
                                } else {
                                    let w = sp_ws(s, q);
                                    if w < q || w >= s.len() {
                                        None
                                    } else if s[w] == 0x2C {
                                        match sp_members(s, w + 1) {
                                            None => None,
                                            Some((rest, e)) => Some((seq![(key, v)] + rest, e)),
                                        }
                                    } else if s[w] == 0x7D {
                                        Some((seq![(key, v)], w + 1))
                                    } else {
                                        None
                                    }
                                },
                            }
                        }
                    }
                },
            }
        }
    }
}

/// A whole JSON document: one value, surrounded by nothing but whitespace.
pub open spec fn sp_json(s: Seq<u8>) -> Option<JsonV> {
    let i = sp_ws(s, 0);
    if i < 0 || i > s.len() {
        None
    } else {
        match sp_value(s, i) {
            None => None,
            Some((v, j)) => if 0 <= j <= s.len() && sp_ws(s, j) == s.len() {
                Some(v)
            } else {
                None
            },
        }
    }
}

fn skip_ws(s: &[u8], i: usize) -> (r: usize)
    requires
        i <= s@.len(),
    ensures
        r as int == sp_ws(s@, i as int),
        i <= r <= s@.len(),
        r < s@.len() ==> !is_ws(s@[r as int]),
{
    let mut j = i;
    while j < s.len() && (s[j] == 0x20 || s[j] == 0x09 || s[j] == 0x0A || s[j] == 0x0D)
        invariant
            i <= j <= s@.len(),
            sp_ws(s@, i as int) == sp_ws(s@, j as int),
        decreases s@.len() - j,
    {
        proof {
            assert(sp_ws(s@, j as int) == sp_ws(s@, j + 1));
        }
        j += 1;
    }
    j
}

fn scan_digits(s: &[u8], i: usize) -> (r: usize)
    requires
        i <= s@.len(),
    ensures
        r as int == sp_digits(s@, i as int),
        i <= r <= s@.len(),
        forall|k: int| i <= k < r ==> is_digit(s@[k]),
        r < s@.len() ==> !is_digit(s@[r as int]),
{
    let mut j = i;
    while j < s.len() && 0x30 <= s[j] && s[j] <= 0x39
        invariant
            i <= j <= s@.len(),
            sp_digits(s@, i as int) == sp_digits(s@, j as int),
            forall|k: int| i <= k < j ==> is_digit(s@[k]),
        decreases s@.len() - j,
    {
        proof {
            assert(sp_digits(s@, j as int) == sp_digits(s@, j + 1));
        }
        j += 1;
    }
    j
}

fn parse_escape(s: &[u8], i: usize) -> (r: Option<(Vec<u8>, usize)>)
    requires
        i <= s@.len(),
    ensures
        match r {
            Some(p) => (sp_escape(s@, i as int) matches Some(q) && q.0 == p.0@ && q.1
                == p.1 as int) && i < p.1 <= s@.len(),
            None => sp_escape(s@, i as int) is None,
        },
{
    if i >= s.len() {
        return None;
    }
    let b = s[i];
    let single: Option<u8> = match b {
        0x22 => Some(0x22),
        0x5C => Some(0x5C),
        0x2F => Some(0x2F),
        0x62 => Some(0x08),
        0x66 => Some(0x0C),
        0x6E => Some(0x0A),
        0x72 => Some(0x0D),
        0x74 => Some(0x09),
        _ => None,
    };
    if let Some(e) = single {
        let mut v: Vec<u8> = Vec::new();
        v.push(e);
        proof {
            assert(v@ =~= seq![e]);
        }
        return Some((v, i + 1));
    }
    if b != 0x75 {
        return None;
    }
    if s.len() - i < 5 {
        return None;
    }
    let h1 = match hex_val(s[i + 1]) {
        Some(h) => h,
        None => {
            return None;
        },
    };
    let h2 = match hex_val(s[i + 2]) {
        Some(h) => h,
        None => {
            return None;
        },
    };
    let h3 = match hex_val(s[i + 3]) {
        Some(h) => h,
        None => {
            return None;
        },
    };
    let h4 = match hex_val(s[i + 4]) {
        Some(h) => h,
        None => {
            return None;
        },
    };
    let c: u32 = (h1 as u32) * 4096 + (h2 as u32) * 256 + (h3 as u32) * 16 + (h4 as u32);
    if 0xD800 <= c && c < 0xE000 {
        return None;
    }
    let mut v: Vec<u8> = Vec::new();
    if c < 0x80 {
        v.push(c as u8);
        proof {
            assert(v@ =~= sp_utf8_bytes(c as int));
        }
    } else if c < 0x800 {
        v.push((0xC0 + c / 64) as u8);
        v.push((0x80 + c % 64) as u8);
        proof {
            assert(v@ =~= sp_utf8_bytes(c as int));
        }
    } else {
        v.push((0xE0 + c / 4096) as u8);
        v.push((0x80 + (c / 64) % 64) as u8);
        v.push((0x80 + c % 64) as u8);
        proof {
            assert(v@ =~= sp_utf8_bytes(c as int));
        }
    }
    Some((v, i + 5))
}

fn hex_val(b: u8) -> (r: Option<u8>)
    ensures
        match r {
            Some(h) => sp_hex_val(b) == Some(h as int) && h < 16,
            None => sp_hex_val(b) is None,
        },
{
    if 0x30 <= b && b <= 0x39 {
        Some(b - 0x30)
    } else if 0x41 <= b && b <= 0x46 {
        Some(b - 0x41 + 10)
    } else if 0x61 <= b && b <= 0x66 {
        Some(b - 0x61 + 10)
    } else {
        None
    }
}

/// The parse of a string body from `i` equals `pre` plus the parse from `j`.
spec fn sbody_ok(s: Seq<u8>, i: int, pre: Seq<u8>, j: int) -> bool {
    match sp_string_body(s, j) {
        Some((rest, k)) => sp_string_body(s, i) == Some::<(Seq<u8>, int)>((pre + rest, k)),
        None => sp_string_body(s, i) is None,
    }
}

fn parse_string_body(s: &[u8], i: usize) -> (r: Option<(Vec<u8>, usize)>)
    requires
        i <= s@.len(),
    ensures
        match r {
            Some(p) => (sp_string_body(s@, i as int) matches Some(q) && q.0 == p.0@ && q.1
                == p.1 as int) && i < p.1 <= s@.len(),
            None => sp_string_body(s@, i as int) is None,
        },
{
    let mut out: Vec<u8> = Vec::new();
    let mut j = i;
    loop
        invariant
            i <= j <= s@.len(),
            sbody_ok(s@, i as int, out@, j as int),
        decreases s@.len() - j,
    {
        if j >= s.len() {
            return None;
        }
        let b = s[j];
        if b == 0x22 {
            proof {
                assert(out@ + Seq::<u8>::empty() =~= out@);
            }
            return Some((out, j + 1));
        }
        if b == 0x5C {
            match parse_escape(s, j + 1) {
                None => {
                    return None;
                },
                Some((e, j2)) => {
                    proof {
                        if sp_string_body(s@, j2 as int) is Some {
                            let q = sp_string_body(s@, j2 as int)->Some_0;
                            assert(out@ + (e@ + q.0) =~= (out@ + e@) + q.0);
                        }
                    }
                    let mut etmp = e;
                    out.append(&mut etmp);
                    j = j2;
                },
            }
        } else if b < 0x20 {
            return None;
        } else {
            proof {
                if sp_string_body(s@, j + 1) is Some {
                    let q = sp_string_body(s@, j + 1)->Some_0;
                    assert(out@ + (seq![b] + q.0) =~= (out@ + seq![b]) + q.0);
                }
            }
            let ghost old_out = out@;
            out.push(b);
            proof {
                assert(out@ =~= old_out + seq![b]);
            }
            j += 1;
        }
    }
}

fn parse_string(s: &[u8], i: usize) -> (r: Option<(String, usize)>)
    requires
        i <= s@.len(),
    ensures
        match r {
            Some(p) => (sp_string(s@, i as int) matches Some(q) && q.0 == encode_utf8(p.0@) && q.1
                == p.1 as int) && i < p.1 <= s@.len(),
            None => sp_string(s@, i as int) is None,
        },
{
    if i >= s.len() || s[i] != 0x22 {
        return None;
    }
    match parse_string_body(s, i + 1) {
        None => None,
        Some((content, k)) => match utf8_to_string(content) {
            Some(t) => Some((t, k)),
            None => None,
        },
    }
}

fn parse_number(s: &[u8], i: usize) -> (r: Option<(String, usize)>)
    requires
        i <= s@.len(),
    ensures
        match r {
            Some(p) => (sp_number(s@, i as int) matches Some(q) && q.0 == encode_utf8(p.0@) && q.1
                == p.1 as int) && i < p.1 <= s@.len(),
            None => sp_number(s@, i as int) is None,
        },
{
    if i >= s.len() {
        return None;
    }
    let j0 = if s[i] == 0x2D {
        i + 1
    } else {
        i
    };
    if j0 >= s.len() || !(0x30 <= s[j0] && s[j0] <= 0x39) {
        return None;
    }
    let j1 = if s[j0] == 0x30 {
        j0 + 1
    } else {
        scan_digits(s, j0)
    };
    let j2 = if j1 < s.len() && s[j1] == 0x2E {
        let jf = scan_digits(s, j1 + 1);
        if jf == j1 + 1 {
            j1
        } else {
            jf
        }
    } else {
        j1
    };
    let j3 = if j2 < s.len() && (s[j2] == 0x65 || s[j2] == 0x45) {
        let js = if j2 + 1 < s.len() && (s[j2 + 1] == 0x2B || s[j2 + 1] == 0x2D) {
            j2 + 2
        } else {
            j2 + 1
        };
        let je = scan_digits(s, js);
        if je == js {
            j2
        } else {
            je
        }
    } else {
        j2
    };
    let token = slice_to_vec(slice_subrange(s, i, j3));
    proof {
        assert(forall|k: int| i <= k < j3 ==> s@[k] < 0x80);
        assert(forall|k: int| 0 <= k < token@.len() ==> token@[k] < 0x80);
        crate::text::lemma_ascii_valid_utf8(token@);
    }
    match utf8_to_string(token) {
        Some(t) => Some((t, j3)),
        None => {
            proof {
                assert(false);
            }
            None
        },
    }
}

fn parse_value(s: &[u8], i: usize) -> (r: Option<(Json, usize)>)
    requires
        i <= s@.len(),
    ensures
        match r {
            Some(p) => (sp_value(s@, i as int) matches Some(q) && q.0 == p.0.view_v() && q.1
                == p.1 as int) && i < p.1 <= s@.len(),
            None => sp_value(s@, i as int) is None,
        },
    decreases s@.len() - i, 0nat,
{
    if i >= s.len() {
        return None;
    }
    let b = s[i];
    if b == 0x7B {
        let j = skip_ws(s, i + 1);
        if j < s.len() && s[j] == 0x7D {
            let v: Vec<(String, Json)> = Vec::new();
            let res = Json::Obj(v);
            proof {
                assert(res.view_v()->Obj_0 =~= Seq::<(Seq<u8>, JsonV)>::empty());
                assert(res.view_v() == JsonV::Obj(Seq::<(Seq<u8>, JsonV)>::empty()));
            }
            Some((res, j + 1))
        } else {
            match parse_members(s, i + 1) {
                None => None,
                Some((m, k)) => {
                    let res = Json::Obj(m);
                    proof {
                        assert(res.view_v()->Obj_0 =~= jv_members(res->Obj_0@));
                        assert(res.view_v() == JsonV::Obj(jv_members(res->Obj_0@)));
                    }
                    Some((res, k))
                },
            }
        }
    } else if b == 0x5B {
        let j = skip_ws(s, i + 1);
        if j < s.len() && s[j] == 0x5D {
            let v: Vec<Json> = Vec::new();
            let res = Json::Arr(v);
            proof {
                assert(res.view_v()->Arr_0 =~= Seq::<JsonV>::empty());
                assert(res.view_v() == JsonV::Arr(Seq::<JsonV>::empty()));
            }
            Some((res, j + 1))
        } else {
            match parse_elems(s, i + 1) {
                None => None,
                Some((v, k)) => {
                    let res = Json::Arr(v);
                    proof {
                        assert(res.view_v()->Arr_0 =~= jv_seq(res->Arr_0@));
                        assert(res.view_v() == JsonV::Arr(jv_seq(res->Arr_0@)));
                    }
                    Some((res, k))
                },
            }
        }
    } else if b == 0x22 {
        match parse_string(s, i) {
            None => None,
            Some((t, j)) => Some((Json::Str(t), j)),
        }
    } else if b == 0x74 {
        if s.len() - i >= 4 && s[i + 1] == 0x72 && s[i + 2] == 0x75 && s[i + 3] == 0x65 {
            Some((Json::Bool(true), i + 4))
        } else {
            None
        }
    } else if b == 0x66 {
        if s.len() - i >= 5 && s[i + 1] == 0x61 && s[i + 2] == 0x6C && s[i + 3] == 0x73 && s[i + 4]
            == 0x65 {
            Some((Json::Bool(false), i + 5))
        } else {
            None
        }
    } else if b == 0x6E {
        if s.len() - i >= 4 && s[i + 1] == 0x75 && s[i + 2] == 0x6C && s[i + 3] == 0x6C {
            Some((Json::Null, i + 4))
        } else {
            None
        }
    } else {
        match parse_number(s, i) {
            None => None,
            Some((t, j)) => Some((Json::Num(t), j)),
        }
    }
}

fn parse_elems(s: &[u8], i: usize) -> (r: Option<(Vec<Json>, usize)>)
    requires
        i <= s@.len(),
    ensures
        match r {
            Some(p) => (sp_elems(s@, i as int) matches Some(q) && q.0 == jv_seq(p.0@) && q.1
                == p.1 as int) && i < p.1 <= s@.len(),
            None => sp_elems(s@, i as int) is None,
        },
    decreases s@.len() - i, 1nat,
{
    let j = skip_ws(s, i);
    match parse_value(s, j) {
        None => None,
        Some((v, k)) => {
            let m = skip_ws(s, k);
            if m >= s.len() {
                None
            } else if s[m] == 0x2C {
                match parse_elems(s, m + 1) {
                    None => None,
                    Some((rest, e)) => {
                        let mut out: Vec<Json> = Vec::new();
                        let ghost v_model = v.view_v();
                        let ghost rest_model = jv_seq(rest@);
                        out.push(v);
                        let mut rest_tmp = rest;
                        out.append(&mut rest_tmp);
                        proof {
                            assert(jv_seq(out@) =~= seq![v_model] + rest_model);
                        }
                        Some((out, e))
                    },
                }
            } else if s[m] == 0x5D {
                let mut out: Vec<Json> = Vec::new();
                let ghost v_model = v.view_v();
                out.push(v);
                proof {
                    assert(jv_seq(out@) =~= seq![v_model]);
                }
                Some((out, m + 1))
            } else {
                None
            }
        },
    }
}

fn parse_members(s: &[u8], i: usize) -> (r: Option<(Vec<(String, Json)>, usize)>)
    requires
        i <= s@.len(),
    ensures
        match r {
            Some(p) => (sp_members(s@, i as int) matches Some(q) && q.0 == jv_members(p.0@) && q.1
                == p.1 as int) && i < p.1 <= s@.len(),
            None => sp_members(s@, i as int) is None,
        },
    decreases s@.len() - i, 1nat,
{
    let j = skip_ws(s, i);
    match parse_string(s, j) {
        None => None,
        Some((key, k)) => {
            let m = skip_ws(s, k);
            if m >= s.len() {
                None
            } else if s[m] != 0x3A {
                None
            } else {
                let n0 = skip_ws(s, m + 1);
                match parse_value(s, n0) {
                    None => None,
                    Some((v, q)) => {
                        let w = skip_ws(s, q);
                        if w >= s.len() {
                            None
                        } else if s[w] == 0x2C {
                            match parse_members(s, w + 1) {
                                None => None,
                                Some((rest, e)) => {
                                    let ghost key_model = encode_utf8(key@);
                                    let ghost v_model = v.view_v();
                                    let ghost rest_model = jv_members(rest@);
                                    let mut out: Vec<(String, Json)> = Vec::new();
                                    out.push((key, v));
                                    let mut rest_tmp = rest;
                                    out.append(&mut rest_tmp);
                                    proof {
                                        assert(jv_members(out@) =~= seq![(key_model, v_model)]
                                            + rest_model);
                                    }
                                    Some((out, e))
                                },
                            }
                        } else if s[w] == 0x7D {
                            let ghost key_model = encode_utf8(key@);
                            let ghost v_model = v.view_v();
                            let mut out: Vec<(String, Json)> = Vec::new();
                            out.push((key, v));
                            proof {
                                assert(jv_members(out@) =~= seq![(key_model, v_model)]);
                            }
                            Some((out, w + 1))
                        } else {
                            None
                        }
                    },
                }
            }
        },
    }
}

/// Parses `payload` as one JSON document: exactly the value the grammar
/// denotes, or `None` for text the grammar rejects.
pub fn parse_json(payload: &[u8]) -> (r: Option<Json>)
    ensures
        match r {
            Some(v) => sp_json(payload@) == Some(v.view_v()),
            None => sp_json(payload@) is None,
        },
{
    let i = skip_ws(payload, 0);
    match parse_value(payload, i) {
        None => None,
        Some((v, j)) => {
            let k = skip_ws(payload, j);
            if k == payload.len() {
                Some(v)
            } else {
                None
            }
        },
    }
}

} // verus!
