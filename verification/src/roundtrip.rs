//! Faithfulness of the bulk-write grammar: rendering an entry list as a
//! JSON document and parsing it back yields the same list, in order and
//! content. This pins the grammar itself: no entry, field or character is
//! dropped, reordered or distorted between a document and its entries.

use vstd::prelude::*;

use crate::entries::KvModel;
use crate::json::{
    cons_char, is_ws, parse_bool, parse_delete_doc, parse_entry, parse_entry_list,
    parse_json_string, parse_member, parse_members, parse_string_body, parse_string_list,
    parse_write_doc, skip_ws, MemberVal,
};

verus! {

/// How one character appears inside a rendered JSON string: quotes and
/// backslashes escaped, everything else as itself.
pub open spec fn render_char(c: char) -> Seq<char> {
    if c == '"' {
        seq!['\\', '"']
    } else if c == '\\' {
        seq!['\\', '\\']
    } else {
        seq![c]
    }
}

/// The body of a rendered JSON string.
pub open spec fn render_string_body(s: Seq<char>) -> Seq<char>
    decreases s.len(),
{
    if s.len() == 0 {
        Seq::empty()
    } else {
        render_char(s[0]) + render_string_body(s.skip(1))
    }
}

/// A rendered JSON string, quotes included.
pub open spec fn render_string(s: Seq<char>) -> Seq<char> {
    seq!['"'] + render_string_body(s) + seq!['"']
}

/// A rendered JSON boolean literal.
pub open spec fn render_bool(b: bool) -> Seq<char> {
    if b {
        seq!['t', 'r', 'u', 'e']
    } else {
        seq!['f', 'a', 'l', 's', 'e']
    }
}

/// One entry rendered as an object, all three fields in order and without
/// whitespace.
pub open spec fn render_entry(m: KvModel) -> Seq<char> {
    seq!['{'] + render_string(seq!['k', 'e', 'y']) + seq![':'] + render_string(m.key) + seq![',']
        + render_string(seq!['v', 'a', 'l', 'u', 'e']) + seq![':'] + render_string(m.value)
        + seq![','] + render_string(seq!['b', 'a', 's', 'e', '6', '4']) + seq![':'] + render_bool(
        m.base64,
    ) + seq!['}']
}

/// A non-empty entry list rendered with `,` between the objects.
pub open spec fn render_entry_list(es: Seq<KvModel>) -> Seq<char>
    decreases es.len(),
{
    if es.len() <= 1 {
        render_entry(es[0])
    } else {
        render_entry(es[0]) + seq![','] + render_entry_list(es.skip(1))
    }
}

/// A whole bulk-write document in canonical form.
pub open spec fn render_write_doc(es: Seq<KvModel>) -> Seq<char> {
    if es.len() == 0 {
        seq!['[', ']']
    } else {
        seq!['['] + render_entry_list(es) + seq![']']
    }
}

/// A non-empty key list rendered with `,` between the strings.
pub open spec fn render_key_list(ks: Seq<Seq<char>>) -> Seq<char>
    decreases ks.len(),
{
    if ks.len() <= 1 {
        render_string(ks[0])
    } else {
        render_string(ks[0]) + seq![','] + render_key_list(ks.skip(1))
    }
}

/// A whole bulk-delete document in canonical form.
pub open spec fn render_delete_doc(ks: Seq<Seq<char>>) -> Seq<char> {
    if ks.len() == 0 {
        seq!['[', ']']
    } else {
        seq!['['] + render_key_list(ks) + seq![']']
    }
}

/// Text without control characters, which the canonical rendering leaves
/// unescaped or escapes with a single backslash.
pub open spec fn plain_text(s: Seq<char>) -> bool {
    forall|i: int| 0 <= i < s.len() ==> (#[trigger] s[i]) as u32 >= 0x20
}

/// An entry whose strings the canonical rendering covers.
pub open spec fn plain_entry(m: KvModel) -> bool {
    plain_text(m.key) && plain_text(m.value)
}

proof fn lemma_skip_ws_at(d: Seq<char>, i: int)
    requires
        0 <= i <= d.len(),
        i < d.len() ==> !is_ws(d[i]),
    ensures
        skip_ws(d, i) == i,
{
}

proof fn lemma_subrange_split(d: Seq<char>, i: int, a: Seq<char>, b: Seq<char>)
    requires
        0 <= i,
        i + a.len() + b.len() <= d.len(),
        d.subrange(i, i + a.len() + b.len()) == a + b,
    ensures
        d.subrange(i, i + a.len() as int) == a,
        d.subrange(i + a.len() as int, i + a.len() + b.len()) == b,
{
    let whole = i + a.len() + b.len();
    assert forall|k: int| 0 <= k < a.len() implies d.subrange(i, i + a.len() as int)[k] == a[k] by {
        assert(d.subrange(i, whole)[k] == (a + b)[k]);
        assert(d.subrange(i, i + a.len() as int)[k] == d[i + k]);
        assert(d.subrange(i, whole)[k] == d[i + k]);
    }
    assert(d.subrange(i, i + a.len() as int) =~= a);
    assert forall|k: int|
        0 <= k < b.len() implies d.subrange(i + a.len() as int, whole)[k] == b[k] by {
        assert(d.subrange(i, whole)[k + a.len()] == (a + b)[k + a.len()]);
        assert(d.subrange(i + a.len() as int, whole)[k] == d[i + a.len() + k]);
        assert(d.subrange(i, whole)[k + a.len()] == d[i + (k + a.len())]);
    }
    assert(d.subrange(i + a.len() as int, whole) =~= b);
}

proof fn lemma_char_at(d: Seq<char>, i: int, c: char)
    requires
        0 <= i,
        i + 1 <= d.len(),
        d.subrange(i, i + 1) == seq![c],
    ensures
        d[i] == c,
{
    assert(d.subrange(i, i + 1)[0] == d[i]);
}

proof fn lemma_parse_rendered_body(d: Seq<char>, i: int, s: Seq<char>)
    requires
        plain_text(s),
        0 <= i,
        i + render_string_body(s).len() + 1 <= d.len(),
        d.subrange(i, i + render_string_body(s).len() + 1) == render_string_body(s) + seq!['"'],
    ensures
        parse_string_body(d, i) == Some((s, i + render_string_body(s).len() + 1)),
    decreases s.len(),
{
    let body = render_string_body(s);
    if s.len() == 0 {
        lemma_char_at(d, i, '"');
    } else {
        let c = s[0];
        assert(c as u32 >= 0x20);
        let rc = render_char(c);
        let rest = render_string_body(s.skip(1));
        assert(body == rc + rest);
        assert(plain_text(s.skip(1))) by {
            assert(forall|t: int|
                0 <= t < s.skip(1).len() ==> #[trigger] s.skip(1)[t] == s[t + 1]);
        }
        assert(body + seq!['"'] =~= rc + (rest + seq!['"']));
        lemma_subrange_split(d, i, rc, rest + seq!['"']);
        if c == '"' || c == '\\' {
            assert(d.subrange(i, i + 2) =~= seq!['\\'] + seq![rc[1]]);
            lemma_subrange_split(d, i, seq!['\\'], seq![rc[1]]);
            lemma_char_at(d, i, '\\');
            lemma_char_at(d, i + 1, rc[1]);
            lemma_parse_rendered_body(d, i + 2, s.skip(1));
            assert(parse_string_body(d, i) == cons_char(c, parse_string_body(d, i + 2)));
            assert(seq![c] + s.skip(1) =~= s);
        } else {
            lemma_char_at(d, i, c);
            assert(c != '"' && c != '\\');
            lemma_parse_rendered_body(d, i + 1, s.skip(1));
            assert(parse_string_body(d, i) == cons_char(c, parse_string_body(d, i + 1)));
            assert(seq![c] + s.skip(1) =~= s);
        }
    }
}

proof fn lemma_parse_rendered_string(d: Seq<char>, i: int, s: Seq<char>)
    requires
        plain_text(s),
        0 <= i,
        i + render_string(s).len() <= d.len(),
        d.subrange(i, i + render_string(s).len()) == render_string(s),
    ensures
        parse_json_string(d, i) == Some((s, i + render_string(s).len())),
{
    let body = render_string_body(s);
    assert(render_string(s) =~= seq!['"'] + (body + seq!['"']));
    lemma_subrange_split(d, i, seq!['"'], body + seq!['"']);
    lemma_char_at(d, i, '"');
    lemma_parse_rendered_body(d, i + 1, s);
}

proof fn lemma_parse_rendered_bool(d: Seq<char>, i: int, b: bool)
    requires
        0 <= i,
        i + render_bool(b).len() <= d.len(),
        d.subrange(i, i + render_bool(b).len()) == render_bool(b),
    ensures
        parse_bool(d, i) == Some((b, i + render_bool(b).len())),
{
    let rb = render_bool(b);
    assert forall|k: int| 0 <= k < rb.len() implies #[trigger] d[i + k] == rb[k] by {
        assert(d.subrange(i, i + rb.len() as int)[k] == rb[k]);
    }
    if b {
        assert(d[i + 0] == 't' && d[i + 1] == 'r' && d[i + 2] == 'u' && d[i + 3] == 'e');
    } else {
        assert(d[i + 0] == 'f' && d[i + 1] == 'a' && d[i + 2] == 'l' && d[i + 3] == 's' && d[i + 4]
            == 'e');
    }
}

proof fn lemma_render_plain_name(s: Seq<char>)
    requires
        forall|i: int| 0 <= i < s.len() ==> (#[trigger] s[i]) != '"' && s[i] != '\\',
    ensures
        render_string_body(s) == s,
    decreases s.len(),
{
    if s.len() == 0 {
        assert(render_string_body(s) =~= s);
    } else {
        assert(forall|t: int| 0 <= t < s.skip(1).len() ==> #[trigger] s.skip(1)[t] == s[t + 1]);
        lemma_render_plain_name(s.skip(1));
        assert(render_string_body(s) =~= s);
    }
}

#[verifier::rlimit(100)]
proof fn lemma_parse_rendered_entry(d: Seq<char>, i: int, m: KvModel)
    requires
        plain_entry(m),
        0 <= i,
        i + render_entry(m).len() <= d.len(),
        d.subrange(i, i + render_entry(m).len()) == render_entry(m),
    ensures
        parse_entry(d, i) == Some((m, i + render_entry(m).len())),
{
    let re = render_entry(m);
    let kname = seq!['k', 'e', 'y'];
    let vname = seq!['v', 'a', 'l', 'u', 'e'];
    let bname = seq!['b', 'a', 's', 'e', '6', '4'];
    lemma_render_plain_name(kname);
    lemma_render_plain_name(vname);
    lemma_render_plain_name(bname);
    let n1 = render_string(kname);
    let v1 = render_string(m.key);
    let n2 = render_string(vname);
    let v2 = render_string(m.value);
    let n3 = render_string(bname);
    let v3 = render_bool(m.base64);
    assert(n1.len() == 5 && n2.len() == 7 && n3.len() == 8);

    // peel the rendered entry apart, one token at a time
    let t12 = v3 + seq!['}'];
    let t11 = seq![':'] + t12;
    let t10 = n3 + t11;
    let t9 = seq![','] + t10;
    let t8 = v2 + t9;
    let t7 = seq![':'] + t8;
    let t6 = n2 + t7;
    let t5 = seq![','] + t6;
    let t4 = v1 + t5;
    let t3 = seq![':'] + t4;
    let t2 = n1 + t3;
    assert(re =~= seq!['{'] + t2);
    let p0 = i;
    lemma_subrange_split(d, p0, seq!['{'], t2);
    lemma_char_at(d, p0, '{');
    let p1 = p0 + 1;
    assert(t2 =~= n1 + t3);
    lemma_subrange_split(d, p1, n1, t3);
    lemma_parse_rendered_string(d, p1, kname);
    let p2 = p1 + 5;
    assert(t3 =~= seq![':'] + t4);
    lemma_subrange_split(d, p2, seq![':'], t4);
    lemma_char_at(d, p2, ':');
    let p3 = p2 + 1;
    assert(t4 =~= v1 + t5);
    lemma_subrange_split(d, p3, v1, t5);
    lemma_parse_rendered_string(d, p3, m.key);
    let p4 = p3 + v1.len() as int;
    assert(t5 =~= seq![','] + t6);
    lemma_subrange_split(d, p4, seq![','], t6);
    lemma_char_at(d, p4, ',');
    let p5 = p4 + 1;
    assert(t6 =~= n2 + t7);
    lemma_subrange_split(d, p5, n2, t7);
    lemma_parse_rendered_string(d, p5, vname);
    let p6 = p5 + 7;
    assert(t7 =~= seq![':'] + t8);
    lemma_subrange_split(d, p6, seq![':'], t8);
    lemma_char_at(d, p6, ':');
    let p7 = p6 + 1;
    assert(t8 =~= v2 + t9);
    lemma_subrange_split(d, p7, v2, t9);
    lemma_parse_rendered_string(d, p7, m.value);
    let p8 = p7 + v2.len() as int;
    assert(t9 =~= seq![','] + t10);
    lemma_subrange_split(d, p8, seq![','], t10);
    lemma_char_at(d, p8, ',');
    let p9 = p8 + 1;
    assert(t10 =~= n3 + t11);
    lemma_subrange_split(d, p9, n3, t11);
    lemma_parse_rendered_string(d, p9, bname);
    let p10 = p9 + 8;
    assert(t11 =~= seq![':'] + t12);
    lemma_subrange_split(d, p10, seq![':'], t12);
    lemma_char_at(d, p10, ':');
    let p11 = p10 + 1;
    assert(t12 =~= v3 + seq!['}']);
    lemma_subrange_split(d, p11, v3, seq!['}']);
    lemma_parse_rendered_bool(d, p11, m.base64);
    let p12 = p11 + v3.len() as int;
    lemma_char_at(d, p12, '}');

    // now walk the grammar over the established characters
    lemma_skip_ws_at(d, p2);
    lemma_skip_ws_at(d, p3);
    assert(kname != vname && kname != bname);
    assert(parse_member(d, p1) == Some((MemberVal::KeyField(m.key), p4)));
    lemma_skip_ws_at(d, p4);
    lemma_skip_ws_at(d, p5);
    lemma_skip_ws_at(d, p6);
    lemma_skip_ws_at(d, p7);
    assert(vname != kname && vname != bname);
    assert(parse_member(d, p5) == Some((MemberVal::ValueField(m.value), p8)));
    lemma_skip_ws_at(d, p8);
    lemma_skip_ws_at(d, p9);
    lemma_skip_ws_at(d, p10);
    lemma_skip_ws_at(d, p11);
    assert(bname != kname && bname != vname);
    assert(parse_member(d, p9) == Some((MemberVal::Base64Field(m.base64), p12)));
    lemma_skip_ws_at(d, p12);

    assert(parse_members(d, p9, Some(m.key), Some(m.value), None) == Some((m, p12 + 1)));
    assert(parse_members(d, p5, Some(m.key), None, None) == Some((m, p12 + 1)));
    assert(parse_members(d, p1, None, None, None) == Some((m, p12 + 1)));
    lemma_skip_ws_at(d, p1);
    assert(parse_entry(d, i) == Some((m, p12 + 1)));
    assert(p12 + 1 == i + re.len());
}

proof fn lemma_parse_rendered_list(d: Seq<char>, i: int, es: Seq<KvModel>)
    requires
        es.len() > 0,
        forall|k: int| 0 <= k < es.len() ==> plain_entry(#[trigger] es[k]),
        0 <= i,
        i + render_entry_list(es).len() + 1 <= d.len(),
        d.subrange(i, i + render_entry_list(es).len() + 1) == render_entry_list(es) + seq![']'],
    ensures
        parse_entry_list(d, i) == Some((es, i + render_entry_list(es).len() + 1)),
    decreases es.len(),
{
    let rl = render_entry_list(es);
    let re = render_entry(es[0]);
    if es.len() == 1 {
        assert(rl + seq![']'] =~= re + seq![']']);
        lemma_subrange_split(d, i, re, seq![']']);
        lemma_parse_rendered_entry(d, i, es[0]);
        let j = i + re.len() as int;
        lemma_char_at(d, j, ']');
        lemma_skip_ws_at(d, j);
        assert(seq![es[0]] =~= es);
    } else {
        let rest = render_entry_list(es.skip(1));
        assert(rl + seq![']'] =~= re + (seq![','] + (rest + seq![']'])));
        lemma_subrange_split(d, i, re, seq![','] + (rest + seq![']']));
        lemma_parse_rendered_entry(d, i, es[0]);
        let j = i + re.len() as int;
        assert(seq![','] + (rest + seq![']']) =~= seq![','] + (rest + seq![']']));
        lemma_subrange_split(d, j, seq![','], rest + seq![']']);
        lemma_char_at(d, j, ',');
        lemma_skip_ws_at(d, j);
        let es1 = es.skip(1);
        assert(rest[0] == render_entry(es1[0])[0]) by {
            if es1.len() == 1 {
            } else {
            }
        }
        assert(render_entry(es1[0])[0] == '{');
        assert(d.subrange(j + 1, j + 1 + rest.len() as int + 1)[0] == d[j + 1]);
        assert(d[j + 1] == (rest + seq![']'])[0]);
        lemma_skip_ws_at(d, j + 1);
        assert(forall|t: int|
            0 <= t < es.skip(1).len() ==> #[trigger] es.skip(1)[t] == es[t + 1]);
        lemma_parse_rendered_list(d, j + 1, es.skip(1));
        assert(seq![es[0]] + es.skip(1) =~= es);
    }
}

proof fn lemma_parse_rendered_key_list(d: Seq<char>, i: int, ks: Seq<Seq<char>>)
    requires
        ks.len() > 0,
        forall|k: int| 0 <= k < ks.len() ==> plain_text(#[trigger] ks[k]),
        0 <= i,
        i + render_key_list(ks).len() + 1 <= d.len(),
        d.subrange(i, i + render_key_list(ks).len() + 1) == render_key_list(ks) + seq![']'],
    ensures
        parse_string_list(d, i) == Some((ks, i + render_key_list(ks).len() + 1)),
    decreases ks.len(),
{
    let rl = render_key_list(ks);
    let rk = render_string(ks[0]);
    if ks.len() == 1 {
        assert(rl + seq![']'] =~= rk + seq![']']);
        lemma_subrange_split(d, i, rk, seq![']']);
        lemma_parse_rendered_string(d, i, ks[0]);
        let j = i + rk.len() as int;
        lemma_char_at(d, j, ']');
        lemma_skip_ws_at(d, j);
        assert(seq![ks[0]] =~= ks);
    } else {
        let rest = render_key_list(ks.skip(1));
        assert(rl + seq![']'] =~= rk + (seq![','] + (rest + seq![']'])));
        lemma_subrange_split(d, i, rk, seq![','] + (rest + seq![']']));
        lemma_parse_rendered_string(d, i, ks[0]);
        let j = i + rk.len() as int;
        lemma_subrange_split(d, j, seq![','], rest + seq![']']);
        lemma_char_at(d, j, ',');
        lemma_skip_ws_at(d, j);
        let ks1 = ks.skip(1);
        assert(rest[0] == render_string(ks1[0])[0]) by {
            if ks1.len() == 1 {
            } else {
            }
        }
        assert(render_string(ks1[0])[0] == '"');
        assert(d.subrange(j + 1, j + 1 + rest.len() as int + 1)[0] == d[j + 1]);
        assert(d[j + 1] == (rest + seq![']'])[0]);
        lemma_skip_ws_at(d, j + 1);
        assert(forall|t: int| 0 <= t < ks1.len() ==> #[trigger] ks1[t] == ks[t + 1]);
        lemma_parse_rendered_key_list(d, j + 1, ks1);
        assert(seq![ks[0]] + ks1 =~= ks);
    }
}

/// A bulk-delete payload is loaded faithfully: the canonical rendering of
/// any key list parses back to exactly that list, in order and content.
/// Covers every key free of control characters.
pub proof fn lemma_delete_doc_round_trip(ks: Seq<Seq<char>>)
    requires
        forall|k: int| 0 <= k < ks.len() ==> plain_text(#[trigger] ks[k]),
    ensures
        parse_delete_doc(render_delete_doc(ks)) == Some(ks),
{
    let d = render_delete_doc(ks);
    if ks.len() == 0 {
        assert(d[0] == '[' && d[1] == ']' && d.len() == 2);
        lemma_skip_ws_at(d, 0);
        lemma_skip_ws_at(d, 1);
        lemma_skip_ws_at(d, 2);
        assert(parse_delete_doc(d) == Some(Seq::<Seq<char>>::empty()));
        assert(Seq::<Seq<char>>::empty() =~= ks);
    } else {
        let rl = render_key_list(ks);
        assert(d =~= seq!['['] + (rl + seq![']']));
        assert(d.subrange(0, d.len() as int) =~= d);
        lemma_subrange_split(d, 0, seq!['['], rl + seq![']']);
        lemma_char_at(d, 0, '[');
        lemma_skip_ws_at(d, 0);
        lemma_skip_ws_at(d, 1);
        lemma_parse_rendered_key_list(d, 1, ks);
        assert(render_string(ks[0])[0] == '"');
        assert(d.subrange(1, 1 + rl.len() as int + 1)[0] == d[1]);
        assert((rl + seq![']'])[0] == render_string(ks[0])[0]) by {
            if ks.len() == 1 {
            } else {
            }
        }
        assert(d[1] == '"');
        lemma_skip_ws_at(d, d.len() as int);
        assert(parse_delete_doc(d) == Some(ks));
    }
}

/// A bulk-write payload is loaded faithfully: the canonical rendering of
/// any entry list parses back to exactly that list, in order and content.
/// Covers every entry whose strings are free of control characters (those
/// the canonical rendering would have to escape numerically).
pub proof fn lemma_write_doc_round_trip(es: Seq<KvModel>)
    requires
        forall|k: int| 0 <= k < es.len() ==> plain_entry(#[trigger] es[k]),
    ensures
        parse_write_doc(render_write_doc(es)) == Some(es),
{
    let d = render_write_doc(es);
    if es.len() == 0 {
        assert(d[0] == '[' && d[1] == ']' && d.len() == 2);
        lemma_skip_ws_at(d, 0);
        lemma_skip_ws_at(d, 1);
        lemma_skip_ws_at(d, 2);
        assert(parse_write_doc(d) == Some(Seq::<KvModel>::empty()));
        assert(Seq::<KvModel>::empty() =~= es);
    } else {
        let rl = render_entry_list(es);
        assert(d =~= seq!['['] + (rl + seq![']']));
        assert(d.subrange(0, d.len() as int) =~= d);
        lemma_subrange_split(d, 0, seq!['['], rl + seq![']']);
        lemma_char_at(d, 0, '[');
        lemma_skip_ws_at(d, 0);
        lemma_skip_ws_at(d, 1);
        lemma_parse_rendered_list(d, 1, es);
        assert(render_entry(es[0])[0] == '{');
        assert(d.subrange(1, 1 + rl.len() as int + 1)[0] == d[1]);
        assert((rl + seq![']'])[0] == render_entry(es[0])[0]) by {
            if es.len() == 1 {
            } else {
            }
        }
        assert(d[1] == '{');
        lemma_skip_ws_at(d, d.len() as int);
        assert(parse_write_doc(d) == Some(es));
    }
}

} // verus!
