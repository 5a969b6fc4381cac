//! The JSON input formats of bulk operations: a write payload is an array of
//! objects with string fields `key` and `value` and an optional boolean
//! field `base64`; a delete payload is an array of strings. The grammar
//! below is the contract: a document parses exactly when these spec
//! functions accept it, and the entries come back in input order.

use vstd::prelude::*;
use vstd::utf8::is_scalar;

use crate::entries::{entries_model, KeyValuePair, KvModel};
use crate::errors::KvError;
use crate::keys::{chars_to_string, hex_char_value, is_hex_char};

verus! {

/// The whitespace JSON allows between tokens.
pub open spec fn is_ws(c: char) -> bool {
    c == ' ' || c == '\n' || c == '\r' || c == '\t'
}

/// The first index at or after `i` that does not hold whitespace.
pub open spec fn skip_ws(s: Seq<char>, i: int) -> int
    decreases s.len() - i,
{
    if 0 <= i && i < s.len() && is_ws(s[i]) {
        skip_ws(s, i + 1)
    } else {
        i
    }
}

/// What a single-character escape after `\` stands for, if it is one.
pub open spec fn simple_escape(c: char) -> Option<char> {
    if c == '"' {
        Some('"')
    } else if c == '\\' {
        Some('\\')
    } else if c == '/' {
        Some('/')
    } else if c == 'b' {
        Some('\u{0008}')
    } else if c == 'f' {
        Some('\u{000c}')
    } else if c == 'n' {
        Some('\n')
    } else if c == 'r' {
        Some('\r')
    } else if c == 't' {
        Some('\t')
    } else {
        None
    }
}

/// Four hexadecimal digits starting at `i`, as one value.
pub open spec fn hex4_at(s: Seq<char>, i: int) -> Option<u32> {
    if 0 <= i && i + 4 <= s.len() && is_hex_char(s[i]) && is_hex_char(s[i + 1]) && is_hex_char(
        s[i + 2],
    ) && is_hex_char(s[i + 3]) {
        Some(
            (0x1000 * (hex_char_value(s[i]) as u32) + 0x100 * (hex_char_value(s[i + 1]) as u32)
                + 0x10 * (hex_char_value(s[i + 2]) as u32) + (hex_char_value(s[i + 3]) as u32))
                as u32,
        )
    } else {
        None
    }
}

/// The scalar value a surrogate pair stands for.
pub open spec fn combine_surrogates(hi: u32, lo: u32) -> u32
    recommends
        0xd800 <= hi && hi < 0xdc00,
        0xdc00 <= lo && lo < 0xe000,
{
    (0x10000 + (hi - 0xd800) * 0x400 + (lo - 0xdc00)) as u32
}

/// Prepend a character to a string-body parse result.
pub open spec fn cons_char(c: char, r: Option<(Seq<char>, int)>) -> Option<(Seq<char>, int)> {
    match r {
        Some((t, j)) => Some((seq![c] + t, j)),
        None => None,
    }
}

/// The body of a JSON string starting at `i` (just after the opening
/// quote): the characters it denotes and the index after the closing quote.
/// Escapes are decoded, surrogate pairs combined; an unescaped control
/// character, a lone surrogate or a missing closing quote rejects the
/// string.
pub open spec fn parse_string_body(s: Seq<char>, i: int) -> Option<(Seq<char>, int)>
    decreases s.len() - i,
{
    if !(0 <= i && i < s.len()) {
        None
    } else {
        let c = s[i];
        if c == '"' {
            Some((Seq::empty(), i + 1))
        } else if c == '\\' {
            if i + 1 < s.len() {
                let e = s[i + 1];
                match simple_escape(e) {
                    Some(d) => cons_char(d, parse_string_body(s, i + 2)),
                    None => if e == 'u' {
                        match hex4_at(s, i + 2) {
                            Some(u) => if is_scalar(u) {
                                cons_char(u as char, parse_string_body(s, i + 6))
                            } else if 0xd800 <= u && u < 0xdc00 {
                                if i + 8 <= s.len() && s[i + 6] == '\\' && s[i + 7] == 'u' {
                                    match hex4_at(s, i + 8) {
                                        Some(lo) => if 0xdc00 <= lo && lo < 0xe000 {
                                            cons_char(
                                                combine_surrogates(u, lo) as char,
                                                parse_string_body(s, i + 12),
                                            )
                                        } else {
                                            None
                                        },
                                        None => None,
                                    }
                                } else {
                                    None
                                }
                            } else {
                                None
                            },
                            None => None,
                        }
                    } else {
                        None
                    },
                }
            } else {
                None
            }
        } else if (c as u32) < 0x20 {
            None
        } else {
            cons_char(c, parse_string_body(s, i + 1))
        }
    }
}

/// A JSON string starting at `i` with its opening quote.
pub open spec fn parse_json_string(s: Seq<char>, i: int) -> Option<(Seq<char>, int)> {
    if 0 <= i && i < s.len() && s[i] == '"' {
        parse_string_body(s, i + 1)
    } else {
        None
    }
}

/// A JSON boolean literal starting at `i`.
pub open spec fn parse_bool(s: Seq<char>, i: int) -> Option<(bool, int)> {
    if 0 <= i && i + 4 <= s.len() && s[i] == 't' && s[i + 1] == 'r' && s[i + 2] == 'u' && s[i + 3]
        == 'e' {
        Some((true, i + 4))
    } else if 0 <= i && i + 5 <= s.len() && s[i] == 'f' && s[i + 1] == 'a' && s[i + 2] == 'l' && s[i
        + 3] == 's' && s[i + 4] == 'e' {
        Some((false, i + 5))
    } else {
        None
    }
}

/// One parsed member of an entry object.
pub enum MemberVal {
    KeyField(Seq<char>),
    ValueField(Seq<char>),
    Base64Field(bool),
}

/// One `"name": value` member starting at `i`: only the three known field
/// names are accepted, each with its value's type.
pub open spec fn parse_member(s: Seq<char>, i: int) -> Option<(MemberVal, int)> {
    match parse_json_string(s, i) {
        Some((name, j0)) => {
            let j = skip_ws(s, j0);
            if j < s.len() && s[j] == ':' {
                let k = skip_ws(s, j + 1);
                if name == seq!['k', 'e', 'y'] {
                    match parse_json_string(s, k) {
                        Some((x, m)) => Some((MemberVal::KeyField(x), m)),
                        None => None,
                    }
                } else if name == seq!['v', 'a', 'l', 'u', 'e'] {
                    match parse_json_string(s, k) {
                        Some((x, m)) => Some((MemberVal::ValueField(x), m)),
                        None => None,
                    }
                } else if name == seq!['b', 'a', 's', 'e', '6', '4'] {
                    match parse_bool(s, k) {
                        Some((x, m)) => Some((MemberVal::Base64Field(x), m)),
                        None => None,
                    }
                } else {
                    None
                }
            } else {
                None
            }
        },
        None => None,
    }
}

/// Fold one member into the fields seen so far; a repeated field rejects
/// the object.
pub open spec fn apply_member(
    mv: MemberVal,
    key: Option<Seq<char>>,
    value: Option<Seq<char>>,
    base64: Option<bool>,
) -> Option<(Option<Seq<char>>, Option<Seq<char>>, Option<bool>)> {
    match mv {
        MemberVal::KeyField(x) => if key is None {
            Some((Some(x), value, base64))
        } else {
            None
        },
        MemberVal::ValueField(x) => if value is None {
            Some((key, Some(x), base64))
        } else {
            None
        },
        MemberVal::Base64Field(x) => if base64 is None {
            Some((key, value, Some(x)))
        } else {
            None
        },
    }
}

/// An entry from its collected fields: `key` and `value` are required,
/// `base64` defaults to false.
pub open spec fn finish_entry(
    key: Option<Seq<char>>,
    value: Option<Seq<char>>,
    base64: Option<bool>,
) -> Option<KvModel> {
    match (key, value) {
        (Some(k), Some(v)) => Some(
            KvModel {
                key: k,
                value: v,
                base64: match base64 {
                    Some(b) => b,
                    None => false,
                },
            },
        ),
        _ => None,
    }
}

/// The members of an entry object from `i` (at the first member's opening
/// quote) to the closing `}`, folded over the fields seen so far.
pub open spec fn parse_members(
    s: Seq<char>,
    i: int,
    key: Option<Seq<char>>,
    value: Option<Seq<char>>,
    base64: Option<bool>,
) -> Option<(KvModel, int)>
    decreases s.len() - i,
{
    match parse_member(s, i) {
        Some((mv, m)) => match apply_member(mv, key, value, base64) {
            Some((k2, v2, b2)) => {
                let n = skip_ws(s, m);
                if n < s.len() && s[n] == ',' {
                    let p = skip_ws(s, n + 1);
                    if i < p && p <= s.len() {
                        parse_members(s, p, k2, v2, b2)
                    } else {
                        None
                    }
                } else if n < s.len() && s[n] == '}' {
                    match finish_entry(k2, v2, b2) {
                        Some(e) => Some((e, n + 1)),
                        None => None,
                    }
                } else {
                    None
                }
            },
            None => None,
        },
        None => None,
    }
}

/// One entry object starting at `i` with its `{`.
pub open spec fn parse_entry(s: Seq<char>, i: int) -> Option<(KvModel, int)> {
    if 0 <= i && i < s.len() && s[i] == '{' {
        parse_members(s, skip_ws(s, i + 1), None, None, None)
    } else {
        None
    }
}

/// A non-empty `,`-separated list of entry objects from `i` up to and
/// including the closing `]`.
pub open spec fn parse_entry_list(s: Seq<char>, i: int) -> Option<(Seq<KvModel>, int)>
    decreases s.len() - i,
{
    match parse_entry(s, i) {
        Some((e, j)) => {
            let n = skip_ws(s, j);
            if n < s.len() && s[n] == ']' {
                Some((seq![e], n + 1))
            } else if n < s.len() && s[n] == ',' {
                let p = skip_ws(s, n + 1);
                if i < p && p <= s.len() {
                    match parse_entry_list(s, p) {
                        Some((t, q)) => Some((seq![e] + t, q)),
                        None => None,
                    }
                } else {
                    None
                }
            } else {
                None
            }
        },
        None => None,
    }
}

/// A whole bulk-write document: one JSON array of entry objects, with
/// nothing but whitespace around it.
pub open spec fn parse_write_doc(s: Seq<char>) -> Option<Seq<KvModel>> {
    let i = skip_ws(s, 0);
    if i < s.len() && s[i] == '[' {
        let j = skip_ws(s, i + 1);
        if j < s.len() && s[j] == ']' {
            if skip_ws(s, j + 1) == s.len() {
                Some(Seq::empty())
            } else {
                None
            }
        } else {
            match parse_entry_list(s, j) {
                Some((es, k)) => if skip_ws(s, k) == s.len() {
                    Some(es)
                } else {
                    None
                },
                None => None,
            }
        }
    } else {
        None
    }
}

/// A non-empty `,`-separated list of strings from `i` up to and including
/// the closing `]`.
pub open spec fn parse_string_list(s: Seq<char>, i: int) -> Option<(Seq<Seq<char>>, int)>
    decreases s.len() - i,
{
    match parse_json_string(s, i) {
        Some((e, j)) => {
            let n = skip_ws(s, j);
            if n < s.len() && s[n] == ']' {
                Some((seq![e], n + 1))
            } else if n < s.len() && s[n] == ',' {
                let p = skip_ws(s, n + 1);
                if i < p && p <= s.len() {
                    match parse_string_list(s, p) {
                        Some((t, q)) => Some((seq![e] + t, q)),
                        None => None,
                    }
                } else {
                    None
                }
            } else {
                None
            }
        },
        None => None,
    }
}

/// A whole bulk-delete document: one JSON array of key strings, with
/// nothing but whitespace around it.
pub open spec fn parse_delete_doc(s: Seq<char>) -> Option<Seq<Seq<char>>> {
    let i = skip_ws(s, 0);
    if i < s.len() && s[i] == '[' {
        let j = skip_ws(s, i + 1);
        if j < s.len() && s[j] == ']' {
            if skip_ws(s, j + 1) == s.len() {
                Some(Seq::empty())
            } else {
                None
            }
        } else {
            match parse_string_list(s, j) {
                Some((ks, k)) => if skip_ws(s, k) == s.len() {
                    Some(ks)
                } else {
                    None
                },
                None => None,
            }
        }
    } else {
        None
    }
}

/// Relies on `char::from_u32`: it returns `Some` exactly on Unicode scalar
/// values, and the returned character has the given code.
#[verifier::external_body]
fn char_from_u32(u: u32) -> (r: Option<char>)
    ensures
        (r is Some) == is_scalar(u),
        r matches Some(c) ==> c as u32 == u,
{
    char::from_u32(u)
}

fn ws(c: char) -> (r: bool)
    ensures
        r == is_ws(c),
{
    c == ' ' || c == '\n' || c == '\r' || c == '\t'
}

fn skip_whitespace(s: &Vec<char>, i: usize) -> (j: usize)
    requires
        i <= s@.len(),
    ensures
        j == skip_ws(s@, i as int),
        i <= j <= s@.len(),
{
    let mut j = i;
    while j < s.len() && ws(s[j])
        invariant
            i <= j <= s@.len(),
            skip_ws(s@, i as int) == skip_ws(s@, j as int),
        decreases s@.len() - j,
    {
        j = j + 1;
    }
    j
}

fn hex_value(c: char) -> (v: u8)
    requires
        is_hex_char(c),
    ensures
        v == hex_char_value(c),
{
    let u = c as u32;
    if u <= 0x39 {
        (u - 0x30) as u8
    } else if u <= 0x46 {
        (u - 0x37) as u8
    } else {
        (u - 0x57) as u8
    }
}

fn is_hex(c: char) -> (r: bool)
    ensures
        r == is_hex_char(c),
{
    let u = c as u32;
    (0x30 <= u && u <= 0x39) || (0x41 <= u && u <= 0x46) || (0x61 <= u && u <= 0x66)
}

fn json_hex4(s: &Vec<char>, i: usize) -> (r: Option<u32>)
    requires
        i <= s@.len(),
    ensures
        r == hex4_at(s@, i as int),
{
    if s.len() - i >= 4 && is_hex(s[i]) && is_hex(s[i + 1]) && is_hex(s[i + 2]) && is_hex(
        s[i + 3],
    ) {
        let v = 0x1000 * (hex_value(s[i]) as u32) + 0x100 * (hex_value(s[i + 1]) as u32) + 0x10 * (
        hex_value(s[i + 2]) as u32) + (hex_value(s[i + 3]) as u32);
        Some(v)
    } else {
        None
    }
}

fn escape_char(c: char) -> (r: Option<char>)
    ensures
        r == simple_escape(c),
{
    if c == '"' {
        Some('"')
    } else if c == '\\' {
        Some('\\')
    } else if c == '/' {
        Some('/')
    } else if c == 'b' {
        Some('\u{0008}')
    } else if c == 'f' {
        Some('\u{000c}')
    } else if c == 'n' {
        Some('\n')
    } else if c == 'r' {
        Some('\r')
    } else if c == 't' {
        Some('\t')
    } else {
        None
    }
}

fn json_string_body(s: &Vec<char>, i: usize) -> (r: Option<(Vec<char>, usize)>)
    requires
        i <= s@.len(),
    ensures
        match r {
            Some(p) => parse_string_body(s@, i as int) == Some((p.0@, p.1 as int)) && i < p.1
                <= s@.len(),
            None => parse_string_body(s@, i as int) is None,
        },
    decreases s@.len() - i,
{
    if i >= s.len() {
        return None;
    }
    let c = s[i];
    if c == '"' {
        let t: Vec<char> = Vec::new();
        Some((t, i + 1))
    } else if c == '\\' {
        if i + 1 < s.len() {
            let e = s[i + 1];
            match escape_char(e) {
                Some(d) => match json_string_body(s, i + 2) {
                    Some((mut t, j)) => {
                        t.insert(0, d);
                        Some((t, j))
                    },
                    None => None,
                },
                None => {
                    if e == 'u' {
                        match json_hex4(s, i + 2) {
                            Some(u) => {
                                match char_from_u32(u) {
                                    Some(d) => {
                                        proof {
                                            vstd::utf8::char_u32_cast(d, u);
                                        }
                                        match json_string_body(s, i + 6) {
                                            Some((mut t, j)) => {
                                                t.insert(0, d);
                                                Some((t, j))
                                            },
                                            None => None,
                                        }
                                    },
                                    None => {
                                        if 0xd800 <= u && u < 0xdc00 {
                                            if s.len() - i >= 8 && s[i + 6] == '\\' && s[i + 7]
                                                == 'u' {
                                                match json_hex4(s, i + 8) {
                                                    Some(lo) => {
                                                        if 0xdc00 <= lo && lo < 0xe000 {
                                                            let u2 = 0x10000 + (u - 0xd800) * 0x400
                                                                + (lo - 0xdc00);
                                                            let d = match char_from_u32(u2) {
                                                                Some(d) => d,
                                                                None => {
                                                                    proof {
                                                                        assert(is_scalar(u2));
                                                                    }
                                                                    unreached()
                                                                },
                                                            };
                                                            proof {
                                                                vstd::utf8::char_u32_cast(d, u2);
                                                            }
                                                            match json_string_body(s, i + 12) {
                                                                Some((mut t, j)) => {
                                                                    t.insert(0, d);
                                                                    Some((t, j))
                                                                },
                                                                None => None,
                                                            }
                                                        } else {
                                                            None
                                                        }
                                                    },
                                                    None => None,
                                                }
                                            } else {
                                                None
                                            }
                                        } else {
                                            None
                                        }
                                    },
                                }
                            },
                            None => None,
                        }
                    } else {
                        None
                    }
                },
            }
        } else {
            None
        }
    } else if (c as u32) < 0x20 {
        None
    } else {
        match json_string_body(s, i + 1) {
            Some((mut t, j)) => {
                t.insert(0, c);
                Some((t, j))
            },
            None => None,
        }
    }
}

fn json_string(s: &Vec<char>, i: usize) -> (r: Option<(Vec<char>, usize)>)
    requires
        i <= s@.len(),
    ensures
        match r {
            Some(p) => parse_json_string(s@, i as int) == Some((p.0@, p.1 as int)) && i < p.1
                <= s@.len(),
            None => parse_json_string(s@, i as int) is None,
        },
{
    if i < s.len() && s[i] == '"' {
        json_string_body(s, i + 1)
    } else {
        None
    }
}

fn json_bool(s: &Vec<char>, i: usize) -> (r: Option<(bool, usize)>)
    requires
        i <= s@.len(),
    ensures
        match r {
            Some(p) => parse_bool(s@, i as int) == Some((p.0, p.1 as int)) && i < p.1 <= s@.len(),
            None => parse_bool(s@, i as int) is None,
        },
{
    if s.len() - i >= 4 && s[i] == 't' && s[i + 1] == 'r' && s[i + 2] == 'u' && s[i + 3] == 'e' {
        Some((true, i + 4))
    } else if s.len() - i >= 5 && s[i] == 'f' && s[i + 1] == 'a' && s[i + 2] == 'l' && s[i + 3]
        == 's' && s[i + 4] == 'e' {
        Some((false, i + 5))
    } else {
        None
    }
}

enum FieldVal {
    KeyField(String),
    ValueField(String),
    Base64Field(bool),
}

impl FieldVal {
    spec fn model(&self) -> MemberVal {
        match self {
            FieldVal::KeyField(x) => MemberVal::KeyField(x@),
            FieldVal::ValueField(x) => MemberVal::ValueField(x@),
            FieldVal::Base64Field(x) => MemberVal::Base64Field(*x),
        }
    }
}

fn json_member(s: &Vec<char>, i: usize) -> (r: Option<(FieldVal, usize)>)
    requires
        i <= s@.len(),
    ensures
        match r {
            Some(p) => parse_member(s@, i as int) == Some((p.0.model(), p.1 as int)) && i < p.1
                <= s@.len(),
            None => parse_member(s@, i as int) is None,
        },
{
    let (name, j0) = match json_string(s, i) {
        Some(p) => p,
        None => {
            return None;
        },
    };
    let j = skip_whitespace(s, j0);
    if !(j < s.len() && s[j] == ':') {
        return None;
    }
    let k = skip_whitespace(s, j + 1);
    let is_key = name.len() == 3 && name[0] == 'k' && name[1] == 'e' && name[2] == 'y';
    let is_value = name.len() == 5 && name[0] == 'v' && name[1] == 'a' && name[2] == 'l' && name[3]
        == 'u' && name[4] == 'e';
    let is_base64 = name.len() == 6 && name[0] == 'b' && name[1] == 'a' && name[2] == 's' && name[3]
        == 'e' && name[4] == '6' && name[5] == '4';
    proof {
        assert(is_key == (name@ == seq!['k', 'e', 'y'])) by {
            if is_key {
                assert(name@ =~= seq!['k', 'e', 'y']);
            }
        }
        assert(is_value == (name@ == seq!['v', 'a', 'l', 'u', 'e'])) by {
            if is_value {
                assert(name@ =~= seq!['v', 'a', 'l', 'u', 'e']);
            }
        }
        assert(is_base64 == (name@ == seq!['b', 'a', 's', 'e', '6', '4'])) by {
            if is_base64 {
                assert(name@ =~= seq!['b', 'a', 's', 'e', '6', '4']);
            }
        }
    }
    if is_key {
        match json_string(s, k) {
            Some((x, m)) => Some((FieldVal::KeyField(chars_to_string(&x)), m)),
            None => None,
        }
    } else if is_value {
        match json_string(s, k) {
            Some((x, m)) => Some((FieldVal::ValueField(chars_to_string(&x)), m)),
            None => None,
        }
    } else if is_base64 {
        match json_bool(s, k) {
            Some((x, m)) => Some((FieldVal::Base64Field(x), m)),
            None => None,
        }
    } else {
        None
    }
}

spec fn opt_view(o: Option<String>) -> Option<Seq<char>> {
    match o {
        Some(x) => Some(x@),
        None => None,
    }
}

fn json_members(
    s: &Vec<char>,
    i: usize,
    key: Option<String>,
    value: Option<String>,
    base64: Option<bool>,
) -> (r: Option<(KeyValuePair, usize)>)
    requires
        i <= s@.len(),
    ensures
        match r {
            Some(p) => parse_members(s@, i as int, opt_view(key), opt_view(value), base64)
                == Some((p.0.model(), p.1 as int)) && p.1 <= s@.len(),
            None => parse_members(s@, i as int, opt_view(key), opt_view(value), base64) is None,
        },
    decreases s@.len() - i,
{
    let (mv, m) = match json_member(s, i) {
        Some(p) => p,
        None => {
            return None;
        },
    };
    let (k2, v2, b2) = match mv {
        FieldVal::KeyField(x) => {
            if key.is_some() {
                return None;
            }
            (Some(x), value, base64)
        },
        FieldVal::ValueField(x) => {
            if value.is_some() {
                return None;
            }
            (key, Some(x), base64)
        },
        FieldVal::Base64Field(x) => {
            if base64.is_some() {
                return None;
            }
            (key, value, Some(x))
        },
    };
    let n = skip_whitespace(s, m);
    if n < s.len() && s[n] == ',' {
        let p = skip_whitespace(s, n + 1);
        if i < p {
            json_members(s, p, k2, v2, b2)
        } else {
            None
        }
    } else if n < s.len() && s[n] == '}' {
        match (k2, v2) {
            (Some(ks), Some(vs)) => {
                let b = match b2 {
                    Some(x) => x,
                    None => false,
                };
                Some((KeyValuePair { key: ks, value: vs, base64: b }, n + 1))
            },
            _ => None,
        }
    } else {
        None
    }
}

fn json_entry(s: &Vec<char>, i: usize) -> (r: Option<(KeyValuePair, usize)>)
    requires
        i <= s@.len(),
    ensures
        match r {
            Some(p) => parse_entry(s@, i as int) == Some((p.0.model(), p.1 as int)) && p.1
                <= s@.len(),
            None => parse_entry(s@, i as int) is None,
        },
{
    if i < s.len() && s[i] == '{' {
        let j = skip_whitespace(s, i + 1);
        json_members(s, j, None, None, None)
    } else {
        None
    }
}

fn json_entry_list(s: &Vec<char>, i: usize) -> (r: Option<(Vec<KeyValuePair>, usize)>)
    requires
        i <= s@.len(),
    ensures
        match r {
            Some(p) => parse_entry_list(s@, i as int) == Some(
                (entries_model(p.0@), p.1 as int),
            ) && p.1 <= s@.len(),
            None => parse_entry_list(s@, i as int) is None,
        },
    decreases s@.len() - i,
{
    let (e, j) = match json_entry(s, i) {
        Some(p) => p,
        None => {
            return None;
        },
    };
    let n = skip_whitespace(s, j);
    if n < s.len() && s[n] == ']' {
        let mut v: Vec<KeyValuePair> = Vec::new();
        v.push(e);
        proof {
            assert(entries_model(v@) =~= seq![v@[0].model()]);
        }
        Some((v, n + 1))
    } else if n < s.len() && s[n] == ',' {
        let p = skip_whitespace(s, n + 1);
        if i < p {
            match json_entry_list(s, p) {
                Some((mut t, q)) => {
                    let ghost t0 = t@;
                    t.insert(0, e);
                    proof {
                        assert(t@ =~= seq![e] + t0);
                        assert(entries_model(t@) =~= seq![e.model()] + entries_model(t0));
                    }
                    Some((t, q))
                },
                None => None,
            }
        } else {
            None
        }
    } else {
        None
    }
}

fn json_string_list(s: &Vec<char>, i: usize) -> (r: Option<(Vec<String>, usize)>)
    requires
        i <= s@.len(),
    ensures
        match r {
            Some(p) => parse_string_list(s@, i as int) == Some(
                (p.0.deep_view(), p.1 as int),
            ) && p.1 <= s@.len(),
            None => parse_string_list(s@, i as int) is None,
        },
    decreases s@.len() - i,
{
    let (e, j) = match json_string(s, i) {
        Some(p) => p,
        None => {
            return None;
        },
    };
    let ks = chars_to_string(&e);
    let n = skip_whitespace(s, j);
    if n < s.len() && s[n] == ']' {
        let mut v: Vec<String> = Vec::new();
        v.push(ks);
        proof {
            assert(v.deep_view() =~= seq![v@[0]@]);
        }
        Some((v, n + 1))
    } else if n < s.len() && s[n] == ',' {
        let p = skip_whitespace(s, n + 1);
        if i < p {
            match json_string_list(s, p) {
                Some((mut t, q)) => {
                    let ghost t0 = t;
                    t.insert(0, ks);
                    proof {
                        assert(t@ =~= seq![ks] + t0@);
                        assert(t.deep_view() =~= seq![ks@] + t0.deep_view());
                    }
                    Some((t, q))
                },
                None => None,
            }
        } else {
            None
        }
    } else {
        None
    }
}

/// Convert a string slice to its characters.
pub fn str_to_chars(text: &str) -> (r: Vec<char>)
    ensures
        r@ == text@,
{
    let n = text.unicode_len();
    let mut r: Vec<char> = Vec::new();
    let mut i: usize = 0;
    while i < n
        invariant
            i <= n,
            n == text@.len(),
            r@ == text@.take(i as int),
        decreases n - i,
    {
        r.push(text.get_char(i));
        proof {
            assert(r@ =~= text@.take(i + 1 as int));
        }
        i = i + 1;
    }
    proof {
        assert(text@.take(n as int) =~= text@);
    }
    r
}

/// Parse a bulk-write payload: a JSON array of `{key, value, base64}`
/// objects. Succeeds exactly when the document matches the grammar, and
/// returns the entries in input order with their exact content.
pub fn parse_write_entries(text: &str) -> (r: Result<Vec<KeyValuePair>, KvError>)
    ensures
        match parse_write_doc(text@) {
            Some(es) => r matches Ok(v) && entries_model(v@) == es,
            None => r matches Err(e) && e is JsonFormatError,
        },
{
    let s = str_to_chars(text);
    let i = skip_whitespace(&s, 0);
    if !(i < s.len() && s[i] == '[') {
        return Err(KvError::JsonFormatError);
    }
    let j = skip_whitespace(&s, i + 1);
    if j < s.len() && s[j] == ']' {
        if skip_whitespace(&s, j + 1) == s.len() {
            let v: Vec<KeyValuePair> = Vec::new();
            proof {
                assert(entries_model(v@) =~= Seq::<KvModel>::empty());
            }
            Ok(v)
        } else {
            Err(KvError::JsonFormatError)
        }
    } else {
        match json_entry_list(&s, j) {
            Some((v, k)) => {
                if skip_whitespace(&s, k) == s.len() {
                    Ok(v)
                } else {
                    Err(KvError::JsonFormatError)
                }
            },
            None => Err(KvError::JsonFormatError),
        }
    }
}

/// Parse a bulk-delete payload: a JSON array of key strings. Succeeds
/// exactly when the document matches the grammar, and returns the keys in
/// input order with their exact content.
pub fn parse_delete_keys(text: &str) -> (r: Result<Vec<String>, KvError>)
    ensures
        match parse_delete_doc(text@) {
            Some(ks) => r matches Ok(v) && v.deep_view() == ks,
            None => r matches Err(e) && e is JsonFormatError,
        },
{
    let s = str_to_chars(text);
    let i = skip_whitespace(&s, 0);
    if !(i < s.len() && s[i] == '[') {
        return Err(KvError::JsonFormatError);
    }
    let j = skip_whitespace(&s, i + 1);
    if j < s.len() && s[j] == ']' {
        if skip_whitespace(&s, j + 1) == s.len() {
            let v: Vec<String> = Vec::new();
            proof {
                assert(v.deep_view() =~= Seq::<Seq<char>>::empty());
            }
            Ok(v)
        } else {
            Err(KvError::JsonFormatError)
        }
    } else {
        match json_string_list(&s, j) {
            Some((v, k)) => {
                if skip_whitespace(&s, k) == s.len() {
                    Ok(v)
                } else {
                    Err(KvError::JsonFormatError)
                }
            },
            None => Err(KvError::JsonFormatError),
        }
    }
}

} // verus!
