//! Storage-key construction: a file's path, relative to the traversal root,
//! is joined with `/` separators and percent-encoded so that it can stand as
//! a single path segment of a request URL.

use vstd::prelude::*;
use vstd::utf8::valid_utf8;

use crate::errors::KvError;

verus! {

/// The byte that separates path components inside a storage key before the
/// key is percent-encoded.
pub const SLASH: u8 = 0x2f;

/// The bytes that the path-segment percent-encoding escapes: ASCII control
/// bytes, the byte 0x7f and all non-ASCII bytes, and the characters
/// space `"` `#` `<` `>` `` ` `` `?` `{` `}` `%` `/`.
pub open spec fn escaped_byte(b: u8) -> bool {
    b <= 0x20 || b >= 0x7f || b == 0x22 || b == 0x23 || b == 0x3c || b == 0x3e
        || b == 0x60 || b == 0x3f || b == 0x7b || b == 0x7d || b == 0x25
        || b == 0x2f
}

/// The uppercase hexadecimal digit of a value below 16.
pub open spec fn hex_char(v: u8) -> char
    recommends
        v < 16,
{
    if v < 10 {
        ((0x30 + v) as u8) as char
    } else {
        ((0x37 + v) as u8) as char
    }
}

/// What one byte contributes to a percent-encoded key: itself if it is not
/// escaped, else `%` followed by its two uppercase hexadecimal digits.
pub open spec fn encode_byte(b: u8) -> Seq<char> {
    if escaped_byte(b) {
        seq!['%', hex_char(b >> 4), hex_char(b & 0xf)]
    } else {
        seq![b as char]
    }
}

/// The percent-encoding of a byte sequence under the path-segment rule.
pub open spec fn pct_encode(s: Seq<u8>) -> Seq<char>
    decreases s.len(),
{
    if s.len() == 0 {
        Seq::empty()
    } else {
        encode_byte(s[0]) + pct_encode(s.skip(1))
    }
}

/// Whether a character is a hexadecimal digit, in either case.
pub open spec fn is_hex_char(c: char) -> bool {
    (0x30 <= c as u32 && c as u32 <= 0x39) || (0x41 <= c as u32 && c as u32 <= 0x46)
        || (0x61 <= c as u32 && c as u32 <= 0x66)
}

/// The value of a hexadecimal digit character, in either case.
pub open spec fn hex_char_value(c: char) -> u8
    recommends
        is_hex_char(c),
{
    if 0x30 <= c as u32 && c as u32 <= 0x39 {
        (c as u32 - 0x30) as u8
    } else if 0x41 <= c as u32 && c as u32 <= 0x46 {
        (c as u32 - 0x37) as u8
    } else if 0x61 <= c as u32 && c as u32 <= 0x66 {
        (c as u32 - 0x57) as u8
    } else {
        0
    }
}

/// Percent-decoding of a character sequence: `%` followed by two hexadecimal
/// digits becomes the byte they spell; anything else passes through as a
/// byte, including a `%` that does not begin a valid escape.
pub open spec fn pct_decode(s: Seq<char>) -> Seq<u8>
    decreases s.len(),
{
    if s.len() == 0 {
        Seq::empty()
    } else if s[0] == '%' && s.len() >= 3 && is_hex_char(s[1]) && is_hex_char(s[2]) {
        seq![(16 * hex_char_value(s[1]) + hex_char_value(s[2])) as u8] + pct_decode(s.skip(3))
    } else {
        seq![(s[0] as u32) as u8] + pct_decode(s.skip(1))
    }
}

/// Path components joined into one byte sequence with `/` between them and
/// no leading or trailing separator.
pub open spec fn join_slash(cs: Seq<Seq<u8>>) -> Seq<u8>
    decreases cs.len(),
{
    if cs.len() == 0 {
        Seq::empty()
    } else if cs.len() == 1 {
        cs[0]
    } else {
        cs[0] + seq![SLASH] + join_slash(cs.skip(1))
    }
}

/// A byte sequence split at every `/`; always at least one (possibly empty)
/// component.
pub open spec fn split_slash(s: Seq<u8>) -> Seq<Seq<u8>>
    decreases s.len(),
{
    if s.len() == 0 {
        seq![Seq::<u8>::empty()]
    } else if s[0] == SLASH {
        seq![Seq::<u8>::empty()] + split_slash(s.skip(1))
    } else {
        let rest = split_slash(s.skip(1));
        seq![seq![s[0]] + rest[0]] + rest.skip(1)
    }
}

/// The storage key of a relative path given as components: the components
/// joined with `/` and percent-encoded.
pub open spec fn key_of(components: Seq<Seq<u8>>) -> Seq<char> {
    pct_encode(join_slash(components))
}

fn is_escaped(b: u8) -> (r: bool)
    ensures
        r == escaped_byte(b),
{
    b <= 0x20 || b >= 0x7f || b == 0x22 || b == 0x23 || b == 0x3c || b == 0x3e || b == 0x60
        || b == 0x3f || b == 0x7b || b == 0x7d || b == 0x25 || b == 0x2f
}

fn hex_digit(v: u8) -> (c: char)
    requires
        v < 16,
    ensures
        c == hex_char(v),
{
    if v < 10 {
        (0x30 + v) as char
    } else {
        (0x37 + v) as char
    }
}

proof fn lemma_pct_encode_push(a: Seq<u8>, b: u8)
    ensures
        pct_encode(a.push(b)) == pct_encode(a) + encode_byte(b),
    decreases a.len(),
{
    if a.len() == 0 {
        assert(a.push(b).skip(1) =~= Seq::<u8>::empty());
        assert(a.push(b)[0] == b);
        assert(pct_encode(a.push(b)) == encode_byte(b) + pct_encode(a.push(b).skip(1)));
        assert(pct_encode(a.push(b)) =~= pct_encode(a) + encode_byte(b));
    } else {
        lemma_pct_encode_push(a.skip(1), b);
        assert(a.push(b).skip(1) =~= a.skip(1).push(b));
        assert(a.push(b)[0] == a[0]);
        assert(pct_encode(a.push(b)) == encode_byte(a[0]) + pct_encode(a.skip(1).push(b)));
        assert(pct_encode(a.push(b)) =~= pct_encode(a) + encode_byte(b));
    }
}

/// Percent-encode a byte sequence under the path-segment rule.
pub fn percent_encode_bytes(s: &Vec<u8>) -> (r: Vec<char>)
    ensures
        r@ == pct_encode(s@),
{
    let mut r: Vec<char> = Vec::new();
    let mut i: usize = 0;
    while i < s.len()
        invariant
            i <= s.len(),
            r@ == pct_encode(s@.take(i as int)),
        decreases s.len() - i,
    {
        let b = s[i];
        proof {
            assert(s@.take(i + 1 as int) =~= s@.take(i as int).push(s@[i as int]));
            lemma_pct_encode_push(s@.take(i as int), s@[i as int]);
        }
        if is_escaped(b) {
            proof {
                assert(b >> 4 < 16) by (bit_vector);
                assert(b & 0xf < 16) by (bit_vector);
            }
            r.push('%');
            r.push(hex_digit(b >> 4));
            r.push(hex_digit(b & 0xf));
        } else {
            r.push(b as char);
        }
        proof {
            assert(r@ =~= pct_encode(s@.take(i + 1 as int)));
        }
        i = i + 1;
    }
    proof {
        assert(s@.take(s@.len() as int) =~= s@);
    }
    r
}

proof fn lemma_join_push(cs: Seq<Seq<u8>>, c: Seq<u8>)
    ensures
        join_slash(cs.push(c)) == if cs.len() == 0 {
            c
        } else {
            join_slash(cs) + seq![SLASH] + c
        },
    decreases cs.len(),
{
    if cs.len() == 0 {
        assert(join_slash(cs.push(c)) =~= c);
    } else if cs.len() == 1 {
        assert(cs.push(c).skip(1) =~= seq![c]);
        assert(join_slash(seq![c]) == c);
        assert(join_slash(cs.push(c)) =~= join_slash(cs) + seq![SLASH] + c);
    } else {
        lemma_join_push(cs.skip(1), c);
        assert(cs.push(c).skip(1) =~= cs.skip(1).push(c));
        assert(join_slash(cs.push(c)) =~= join_slash(cs) + seq![SLASH] + c);
    }
}

/// Join path components with `/` separators.
pub fn join_components(components: &Vec<Vec<u8>>) -> (r: Vec<u8>)
    ensures
        r@ == join_slash(components.deep_view()),
{
    let ghost deep = components.deep_view();
    let mut r: Vec<u8> = Vec::new();
    let mut i: usize = 0;
    while i < components.len()
        invariant
            i <= components.len(),
            deep == components.deep_view(),
            deep.len() == components@.len(),
            forall|j: int| 0 <= j < deep.len() ==> deep[j] == components@[j]@,
            r@ == join_slash(deep.take(i as int)),
        decreases components.len() - i,
    {
        proof {
            assert(deep.take(i + 1 as int) =~= deep.take(i as int).push(deep[i as int]));
            lemma_join_push(deep.take(i as int), deep[i as int]);
        }
        if i > 0 {
            r.push(SLASH);
        }
        r.extend_from_slice(components[i].as_slice());
        proof {
            assert(r@ =~= join_slash(deep.take(i + 1 as int)));
        }
        i = i + 1;
    }
    proof {
        assert(deep.take(deep.len() as int) =~= deep);
    }
    r
}

/// Relies on `core::str::from_utf8`, which returns `Ok` exactly when the
/// bytes are valid UTF-8.
#[verifier::external_body]
fn utf8_valid(v: &Vec<u8>) -> (r: bool)
    ensures
        r == valid_utf8(v@),
{
    core::str::from_utf8(v.as_slice()).is_ok()
}

/// Relies on the standard library's `FromIterator` impl for `String`:
/// collecting characters yields the string of exactly those characters.
#[verifier::external_body]
pub fn chars_to_string(v: &Vec<char>) -> (r: String)
    ensures
        r@ == v@,
{
    v.iter().collect()
}

proof fn lemma_hex_char_round_trip(v: u8)
    requires
        v < 16,
    ensures
        is_hex_char(hex_char(v)),
        hex_char_value(hex_char(v)) == v,
        hex_char(v) != '%',
{
}

proof fn lemma_pct_decode_encode(s: Seq<u8>)
    ensures
        pct_decode(pct_encode(s)) == s,
    decreases s.len(),
{
    if s.len() == 0 {
        assert(pct_decode(pct_encode(s)) =~= s);
    } else {
        let b = s[0];
        lemma_pct_decode_encode(s.skip(1));
        let enc = pct_encode(s);
        assert(enc == encode_byte(b) + pct_encode(s.skip(1)));
        if escaped_byte(b) {
            assert(b >> 4 < 16 && b & 0xf < 16) by (bit_vector);
            lemma_hex_char_round_trip(b >> 4);
            lemma_hex_char_round_trip(b & 0xf);
            assert(enc[0] == '%' && enc[1] == hex_char(b >> 4) && enc[2] == hex_char(b & 0xf));
            assert(enc.len() >= 3);
            assert(16 * (b >> 4) + (b & 0xf) == b) by (bit_vector);
            assert(enc.skip(3) =~= pct_encode(s.skip(1)));
            assert(pct_decode(enc) =~= s);
        } else {
            assert(((b as char) as u32) == b as u32);
            assert(b != 0x25 && b < 0x7f);
            assert(enc[0] == b as char);
            assert(enc[0] != '%');
            assert(enc.skip(1) =~= pct_encode(s.skip(1)));
            assert(pct_decode(enc) =~= s);
        }
    }
}

proof fn lemma_split_slash_free(c: Seq<u8>)
    requires
        !c.contains(SLASH),
    ensures
        split_slash(c) == seq![c],
    decreases c.len(),
{
    if c.len() == 0 {
        assert(split_slash(c) =~~= seq![c]);
    } else {
        assert(c[0] != SLASH);
        assert(!c.skip(1).contains(SLASH)) by {
            assert(forall|i: int| 0 <= i < c.skip(1).len() ==> c.skip(1)[i] == c[i + 1]);
        }
        lemma_split_slash_free(c.skip(1));
        assert(split_slash(c) =~~= seq![c]);
    }
}

proof fn lemma_split_join_step(a: Seq<u8>, t: Seq<u8>)
    requires
        !a.contains(SLASH),
    ensures
        split_slash(a + seq![SLASH] + t) == seq![a] + split_slash(t),
    decreases a.len(),
{
    let s = a + seq![SLASH] + t;
    if a.len() == 0 {
        assert(s[0] == SLASH);
        assert(s.skip(1) =~= t);
        assert(split_slash(s) =~~= seq![a] + split_slash(t));
    } else {
        assert(s[0] == a[0]);
        assert(a[0] != SLASH);
        assert(!a.skip(1).contains(SLASH)) by {
            assert(forall|i: int| 0 <= i < a.skip(1).len() ==> a.skip(1)[i] == a[i + 1]);
        }
        lemma_split_join_step(a.skip(1), t);
        assert(s.skip(1) =~= a.skip(1) + seq![SLASH] + t);
        let rest = split_slash(s.skip(1));
        assert(rest == seq![a.skip(1)] + split_slash(t));
        assert(rest[0] == a.skip(1));
        assert(seq![s[0]] + rest[0] =~= a);
        assert(split_slash(s) =~~= seq![a] + split_slash(t));
    }
}

proof fn lemma_split_join(cs: Seq<Seq<u8>>)
    requires
        cs.len() > 0,
        forall|i: int| 0 <= i < cs.len() ==> !(#[trigger] cs[i]).contains(SLASH),
    ensures
        split_slash(join_slash(cs)) == cs,
    decreases cs.len(),
{
    if cs.len() == 1 {
        lemma_split_slash_free(cs[0]);
        assert(split_slash(join_slash(cs)) =~~= cs);
    } else {
        lemma_split_join(cs.skip(1));
        assert(join_slash(cs) == cs[0] + seq![SLASH] + join_slash(cs.skip(1)));
        lemma_split_join_step(cs[0], join_slash(cs.skip(1)));
        assert(split_slash(join_slash(cs)) =~~= cs);
    }
}

/// Key encoding round-trips: percent-decoding a produced key and splitting
/// the result at `/` reconstructs the original relative path's component
/// sequence, for any component sequence a filesystem path can yield (at
/// least one component, none containing the separator byte).
pub proof fn lemma_key_round_trip(components: Seq<Seq<u8>>)
    requires
        components.len() > 0,
        forall|i: int| 0 <= i < components.len() ==> !(#[trigger] components[i]).contains(SLASH),
    ensures
        split_slash(pct_decode(key_of(components))) == components,
{
    lemma_pct_decode_encode(join_slash(components));
    lemma_split_join(components);
}

/// The storage key of a file, given the components of its path relative to
/// the traversal root: the components joined with `/` and percent-encoded.
/// Fails exactly when the joined path is not valid UTF-8.
pub fn generate_key(components: &Vec<Vec<u8>>) -> (r: Result<String, KvError>)
    ensures
        r is Ok <==> valid_utf8(join_slash(components.deep_view())),
        r matches Ok(k) ==> k@ == key_of(components.deep_view()),
        r matches Err(e) ==> e is EncodingError,
{
    let joined = join_components(components);
    if !utf8_valid(&joined) {
        return Err(KvError::EncodingError);
    }
    let encoded = percent_encode_bytes(&joined);
    Ok(chars_to_string(&encoded))
}

} // verus!
