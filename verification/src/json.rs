//! The JSON subset the wire protocol uses: null, booleans, strings, arrays and
//! objects. Values are encoded without extra whitespace; strings escape the
//! quote, the backslash and control characters. The decoder is total and is
//! exactly the inverse of the encoder (see `lemma_parse_inverts_encode`).

use vstd::prelude::*;

verus! {

broadcast use {vstd::std_specs::vec::group_vec_axioms, vstd::seq::group_seq_axioms};

/// An in-memory JSON document (numbers are not part of the wire protocol).
#[derive(Debug, PartialEq)]
pub enum JsonValue {
    Null,
    Bool(bool),
    Str(String),
    Arr(Vec<JsonValue>),
    Obj(Vec<(String, JsonValue)>),
}

/// The mathematical model of a JSON document.
#[verifier::ext_equal]
pub enum JsonV {
    Null,
    Bool(bool),
    Str(Seq<char>),
    Arr(Seq<JsonV>),
    Obj(Seq<(Seq<char>, JsonV)>),
}

pub open spec fn jv_view(v: JsonValue) -> JsonV
    decreases v,
{
    match v {
        JsonValue::Null => JsonV::Null,
        JsonValue::Bool(b) => JsonV::Bool(b),
        JsonValue::Str(s) => JsonV::Str(s@),
        JsonValue::Arr(items) => JsonV::Arr(
            Seq::new(
                items@.len(),
                |i: int|
                    if 0 <= i < items@.len() {
                        jv_view(items@[i])
                    } else {
                        JsonV::Null
                    },
            ),
        ),
        JsonValue::Obj(members) => JsonV::Obj(
            Seq::new(
                members@.len(),
                |i: int|
                    if 0 <= i < members@.len() {
                        (members@[i].0@, jv_view(members@[i].1))
                    } else {
                        (Seq::empty(), JsonV::Null)
                    },
            ),
        ),
    }
}

impl View for JsonValue {
    type V = JsonV;

    open spec fn view(&self) -> JsonV {
        jv_view(*self)
    }
}

/// The hexadecimal digit for a nibble, lower case.
pub open spec fn hex_digit(n: int) -> char
    recommends
        0 <= n < 16,
{
    if n == 0 { '0' } else if n == 1 { '1' } else if n == 2 { '2' } else if n == 3 { '3' }
    else if n == 4 { '4' } else if n == 5 { '5' } else if n == 6 { '6' } else if n == 7 { '7' }
    else if n == 8 { '8' } else if n == 9 { '9' } else if n == 10 { 'a' } else if n == 11 { 'b' }
    else if n == 12 { 'c' } else if n == 13 { 'd' } else if n == 14 { 'e' } else { 'f' }
}

/// The nibble a hexadecimal digit stands for; 16 marks a non-digit.
pub open spec fn hex_value(c: char) -> int {
    if c == '0' { 0 } else if c == '1' { 1 } else if c == '2' { 2 } else if c == '3' { 3 }
    else if c == '4' { 4 } else if c == '5' { 5 } else if c == '6' { 6 } else if c == '7' { 7 }
    else if c == '8' { 8 } else if c == '9' { 9 }
    else if c == 'a' || c == 'A' { 10 } else if c == 'b' || c == 'B' { 11 }
    else if c == 'c' || c == 'C' { 12 } else if c == 'd' || c == 'D' { 13 }
    else if c == 'e' || c == 'E' { 14 } else if c == 'f' || c == 'F' { 15 }
    else { 16 }
}

/// How one character is written inside a JSON string literal.
pub open spec fn esc_char(c: char) -> Seq<char> {
    if c == '"' {
        seq!['\\', '"']
    } else if c == '\\' {
        seq!['\\', '\\']
    } else if (c as u32) < 0x20 {
        seq!['\\', 'u', '0', '0', hex_digit((c as u32) as int / 16), hex_digit((c as u32) as int % 16)]
    } else {
        seq![c]
    }
}

/// The body of a JSON string literal for the character sequence `s`.
pub open spec fn esc_str(s: Seq<char>) -> Seq<char>
    decreases s.len(),
{
    if s.len() == 0 {
        Seq::empty()
    } else {
        esc_char(s[0]) + esc_str(s.drop_first())
    }
}

/// The canonical encoding of a JSON value: no whitespace, members in order.
pub open spec fn jenc(j: JsonV) -> Seq<char>
    decreases j,
{
    match j {
        JsonV::Null => seq!['n', 'u', 'l', 'l'],
        JsonV::Bool(b) => if b { seq!['t', 'r', 'u', 'e'] } else { seq!['f', 'a', 'l', 's', 'e'] },
        JsonV::Str(s) => seq!['"'] + esc_str(s) + seq!['"'],
        JsonV::Arr(items) => seq!['['] + jenc_items(items) + seq![']'],
        JsonV::Obj(members) => seq!['{'] + jenc_members(members) + seq!['}'],
    }
}

pub open spec fn jenc_items(items: Seq<JsonV>) -> Seq<char>
    decreases items,
{
    if items.len() == 0 {
        Seq::empty()
    } else if items.len() == 1 {
        jenc(items[0])
    } else {
        jenc(items[0]) + seq![','] + jenc_items(items.drop_first())
    }
}

pub open spec fn jenc_members(members: Seq<(Seq<char>, JsonV)>) -> Seq<char>
    decreases members,
{
    if members.len() == 0 {
        Seq::empty()
    } else if members.len() == 1 {
        jenc_member(members[0])
    } else {
        jenc_member(members[0]) + seq![','] + jenc_members(members.drop_first())
    }
}

pub open spec fn jenc_member(member: (Seq<char>, JsonV)) -> Seq<char>
    decreases member,
{
    seq!['"'] + esc_str(member.0) + seq!['"', ':'] + jenc(member.1)
}

/// True of characters that may stand unescaped inside a string literal.
pub open spec fn plain_char(c: char) -> bool {
    c != '"' && c != '\\' && (c as u32) >= 0x20
}

/// Parses the body of a string literal from `i` up to and over its closing
/// quote. Returns the decoded characters and the position after the quote.
pub open spec fn jparse_string(s: Seq<char>, i: int) -> Option<(Seq<char>, int)>
    decreases s.len() - i,
{
    if i < 0 || i >= s.len() {
        None
    } else if s[i] == '"' {
        Some((Seq::empty(), i + 1))
    } else if s[i] == '\\' {
        if i + 2 > s.len() {
            None
        } else if s[i + 1] == 'u' {
            if i + 6 > s.len() {
                None
            } else {
                let h0 = hex_value(s[i + 2]);
                let h1 = hex_value(s[i + 3]);
                let h2 = hex_value(s[i + 4]);
                let h3 = hex_value(s[i + 5]);
                if h0 < 16 && h1 < 16 && h2 < 16 && h3 < 16 {
                    let code = h0 * 4096 + h1 * 256 + h2 * 16 + h3;
                    if code < 0xD800 || 0xE000 <= code {
                        match jparse_string(s, i + 6) {
                            None => None,
                            Some((rest, j)) => Some((seq![(code as u32) as char] + rest, j)),
                        }
                    } else {
                        None
                    }
                } else {
                    None
                }
            }
        } else {
            let e = s[i + 1];
            if e == '"' || e == '\\' || e == '/' || e == 'n' || e == 't' || e == 'r' || e == 'b'
                || e == 'f' {
                let c = if e == '"' { '"' } else if e == '\\' { '\\' } else if e == '/' { '/' }
                else if e == 'n' { '\n' } else if e == 't' { '\t' } else if e == 'r' { '\r' }
                else if e == 'b' { '\u{08}' } else { '\u{0C}' };
                match jparse_string(s, i + 2) {
                    None => None,
                    Some((rest, j)) => Some((seq![c] + rest, j)),
                }
            } else {
                None
            }
        }
    } else if plain_char(s[i]) {
        match jparse_string(s, i + 1) {
            None => None,
            Some((rest, j)) => Some((seq![s[i]] + rest, j)),
        }
    } else {
        None
    }
}

/// Parses one JSON value beginning at `i`; returns it and the position after it.
pub open spec fn jparse_value(s: Seq<char>, i: int) -> Option<(JsonV, int)>
    decreases s.len() - i, 0int,
{
    if i < 0 || i >= s.len() {
        None
    } else if s[i] == 'n' {
        if i + 4 <= s.len() && s.subrange(i, i + 4) == seq!['n', 'u', 'l', 'l'] {
            Some((JsonV::Null, i + 4))
        } else {
            None
        }
    } else if s[i] == 't' {
        if i + 4 <= s.len() && s.subrange(i, i + 4) == seq!['t', 'r', 'u', 'e'] {
            Some((JsonV::Bool(true), i + 4))
        } else {
            None
        }
    } else if s[i] == 'f' {
        if i + 5 <= s.len() && s.subrange(i, i + 5) == seq!['f', 'a', 'l', 's', 'e'] {
            Some((JsonV::Bool(false), i + 5))
        } else {
            None
        }
    } else if s[i] == '"' {
        match jparse_string(s, i + 1) {
            None => None,
            Some((cs, j)) => Some((JsonV::Str(cs), j)),
        }
    } else if s[i] == '[' {
        if i + 1 < s.len() && s[i + 1] == ']' {
            Some((JsonV::Arr(Seq::empty()), i + 2))
        } else {
            match jparse_items(s, i + 1) {
                None => None,
                Some((items, j)) => Some((JsonV::Arr(items), j)),
            }
        }
    } else if s[i] == '{' {
        if i + 1 < s.len() && s[i + 1] == '}' {
            Some((JsonV::Obj(Seq::empty()), i + 2))
        } else {
            match jparse_members(s, i + 1) {
                None => None,
                Some((members, j)) => Some((JsonV::Obj(members), j)),
            }
        }
    } else {
        None
    }
}

/// Parses one or more comma-separated values followed by `]`.
pub open spec fn jparse_items(s: Seq<char>, i: int) -> Option<(Seq<JsonV>, int)>
    decreases s.len() - i, 1int,
{
    if i < 0 || i >= s.len() {
        None
    } else {
        match jparse_value(s, i) {
            None => None,
            Some((v, j0)) => {
                // a successful parse always moves right; the guard keeps the
                // recursion well founded without appeal to that fact
                let j = if j0 <= i { i + 1 } else { j0 };
                if j < s.len() && s[j] == ',' {
                    match jparse_items(s, j + 1) {
                        None => None,
                        Some((rest, k)) => Some((seq![v] + rest, k)),
                    }
                } else if j < s.len() && s[j] == ']' {
                    Some((seq![v], j + 1))
                } else {
                    None
                }
            },
        }
    }
}

/// Parses one or more `"key":value` members followed by `}`.
pub open spec fn jparse_members(s: Seq<char>, i: int) -> Option<(Seq<(Seq<char>, JsonV)>, int)>
    decreases s.len() - i, 2int,
{
    if i < 0 || i >= s.len() {
        None
    } else if s[i] != '"' {
        None
    } else {
        match jparse_string(s, i + 1) {
            None => None,
            Some((key, j0)) => {
                let j = if j0 <= i + 1 { i + 2 } else { j0 };
                if j < s.len() && s[j] == ':' {
                    match jparse_value(s, j + 1) {
                        None => None,
                        Some((v, k0)) => {
                            let k = if k0 <= j + 1 { j + 2 } else { k0 };
                            if k < s.len() && s[k] == ',' {
                                match jparse_members(s, k + 1) {
                                    None => None,
                                    Some((rest, m)) => Some((seq![(key, v)] + rest, m)),
                                }
                            } else if k < s.len() && s[k] == '}' {
                                Some((seq![(key, v)], k + 1))
                            } else {
                                None
                            }
                        },
                    }
                } else {
                    None
                }
            },
        }
    }
}

/// Parses a whole document: one value with nothing after it.
pub open spec fn jparse(s: Seq<char>) -> Option<JsonV> {
    match jparse_value(s, 0) {
        None => None,
        Some((v, j)) => if j == s.len() {
            Some(v)
        } else {
            None
        },
    }
}

proof fn lemma_hex_rt(n: int)
    requires
        0 <= n < 16,
    ensures
        hex_value(hex_digit(n)) == n,
{
}

/// One character of a region known to stand in `ctx` at offset `i`.
proof fn lemma_at(ctx: Seq<char>, i: int, body: Seq<char>, k: int)
    requires
        0 <= i,
        i + body.len() <= ctx.len(),
        ctx.subrange(i, i + body.len()) == body,
        0 <= k < body.len(),
    ensures
        ctx[i + k] == body[k],
{
    assert(ctx.subrange(i, i + body.len())[k] == body[k]);
}

/// A slice of a region known to stand in `ctx` at offset `i`.
proof fn lemma_sub(ctx: Seq<char>, i: int, body: Seq<char>, a: int, b: int)
    requires
        0 <= i,
        i + body.len() <= ctx.len(),
        ctx.subrange(i, i + body.len()) == body,
        0 <= a <= b <= body.len(),
    ensures
        ctx.subrange(i + a, i + b) == body.subrange(a, b),
{
    assert(ctx.subrange(i + a, i + b) =~= body.subrange(a, b)) by {
        assert forall|k: int| 0 <= k < b - a implies ctx.subrange(i + a, i + b)[k]
            == body.subrange(a, b)[k] by {
            assert(ctx.subrange(i, i + body.len())[a + k] == body[a + k]);
        }
    }
}

/// Decoding a string literal undoes the escaping, whatever follows the
/// closing quote.
proof fn lemma_rt_string(sv: Seq<char>, ctx: Seq<char>, i: int)
    requires
        0 <= i,
        i + esc_str(sv).len() + 1 <= ctx.len(),
        ctx.subrange(i, i + esc_str(sv).len() + 1) == esc_str(sv) + seq!['"'],
    ensures
        jparse_string(ctx, i) == Some((sv, i + esc_str(sv).len() + 1)),
    decreases sv.len(),
{
    broadcast use vstd::utf8::char_u32_cast;

    let body = esc_str(sv) + seq!['"'];
    if sv.len() == 0 {
        lemma_at(ctx, i, body, 0);
        assert(ctx[i] == '"');
    } else {
        let c = sv[0];
        let e = esc_char(c);
        let tail = sv.drop_first();
        assert(esc_str(sv) == e + esc_str(tail));
        let i2 = i + e.len();
        lemma_sub(ctx, i, body, e.len() as int, body.len() as int);
        assert(body.subrange(e.len() as int, body.len() as int) =~= esc_str(tail) + seq!['"']);
        lemma_rt_string(tail, ctx, i2);
        if c == '"' {
            lemma_at(ctx, i, body, 0);
            lemma_at(ctx, i, body, 1);
            assert(ctx[i] == '\\' && ctx[i + 1] == '"');
            assert(seq![c] + tail =~= sv);
        } else if c == '\\' {
            lemma_at(ctx, i, body, 0);
            lemma_at(ctx, i, body, 1);
            assert(ctx[i] == '\\' && ctx[i + 1] == '\\');
            assert(seq![c] + tail =~= sv);
        } else if (c as u32) < 0x20 {
            let u = (c as u32) as int;
            lemma_at(ctx, i, body, 0);
            lemma_at(ctx, i, body, 1);
            lemma_at(ctx, i, body, 2);
            lemma_at(ctx, i, body, 3);
            lemma_at(ctx, i, body, 4);
            lemma_at(ctx, i, body, 5);
            assert(ctx[i] == '\\' && ctx[i + 1] == 'u' && ctx[i + 2] == '0' && ctx[i + 3] == '0'
                && ctx[i + 4] == hex_digit(u / 16) && ctx[i + 5] == hex_digit(u % 16));
            lemma_hex_rt(u / 16);
            lemma_hex_rt(u % 16);
            let code = hex_value(ctx[i + 2]) * 4096 + hex_value(ctx[i + 3]) * 256 + hex_value(
                ctx[i + 4],
            ) * 16 + hex_value(ctx[i + 5]);
            assert(code == u);
            vstd::utf8::char_u32_cast(c, code as u32);
            assert((code as u32) as char == c);
            assert(seq![c] + tail =~= sv);
        } else {
            lemma_at(ctx, i, body, 0);
            assert(ctx[i] == c && plain_char(c));
            assert(seq![c] + tail =~= sv);
        }
    }
}

/// Every encoding is non-empty and opens with a character that announces a value.
proof fn lemma_jenc_first(j: JsonV)
    ensures
        jenc(j).len() >= 1,
        jenc(j)[0] == 'n' || jenc(j)[0] == 't' || jenc(j)[0] == 'f' || jenc(j)[0] == '"' || jenc(
            j,
        )[0] == '[' || jenc(j)[0] == '{',
{
}

/// Decoding a value undoes encoding, whatever follows the value.
proof fn lemma_rt_value(j: JsonV, ctx: Seq<char>, i: int)
    requires
        0 <= i,
        i + jenc(j).len() <= ctx.len(),
        ctx.subrange(i, i + jenc(j).len()) == jenc(j),
    ensures
        jparse_value(ctx, i) == Some((j, i + jenc(j).len())),
    decreases j,
{
    let body = jenc(j);
    lemma_at(ctx, i, body, 0);
    match j {
        JsonV::Null => {
            assert(ctx.subrange(i, i + 4) == seq!['n', 'u', 'l', 'l']);
        },
        JsonV::Bool(b) => {
            if b {
                assert(ctx.subrange(i, i + 4) == seq!['t', 'r', 'u', 'e']);
            } else {
                assert(ctx.subrange(i, i + 5) == seq!['f', 'a', 'l', 's', 'e']);
            }
        },
        JsonV::Str(sv) => {
            assert(ctx[i] == '"');
            lemma_sub(ctx, i, body, 1, body.len() as int);
            assert(body.subrange(1, body.len() as int) =~= esc_str(sv) + seq!['"']);
            lemma_rt_string(sv, ctx, i + 1);
        },
        JsonV::Arr(items) => {
            assert(ctx[i] == '[');
            if items.len() == 0 {
                assert(body =~= seq!['[', ']']);
                lemma_at(ctx, i, body, 1);
                assert(JsonV::Arr(items) == JsonV::Arr(Seq::<JsonV>::empty())) by {
                    assert(items =~= Seq::<JsonV>::empty());
                }
            } else {
                lemma_jenc_first(items[0]);
                assert(body[1] == jenc(items[0])[0]);
                lemma_at(ctx, i, body, 1);
                assert(ctx[i + 1] != ']');
                let m = jenc_items(items).len() as int;
                lemma_sub(ctx, i, body, 1, body.len() as int);
                assert(body.subrange(1, body.len() as int) =~= jenc_items(items) + seq![']']);
                lemma_rt_items(items, ctx, i + 1);
            }
        },
        JsonV::Obj(members) => {
            assert(ctx[i] == '{');
            if members.len() == 0 {
                assert(body =~= seq!['{', '}']);
                lemma_at(ctx, i, body, 1);
                assert(JsonV::Obj(members) == JsonV::Obj(Seq::<(Seq<char>, JsonV)>::empty())) by {
                    assert(members =~= Seq::<(Seq<char>, JsonV)>::empty());
                }
            } else {
                assert(jenc_member(members[0])[0] == '"');
                assert(body[1] == jenc_members(members)[0]);
                assert(jenc_members(members)[0] == jenc_member(members[0])[0]);
                lemma_at(ctx, i, body, 1);
                assert(ctx[i + 1] != '}');
                lemma_sub(ctx, i, body, 1, body.len() as int);
                assert(body.subrange(1, body.len() as int) =~= jenc_members(members) + seq!['}']);
                lemma_rt_members(members, ctx, i + 1);
            }
        },
    }
}

/// Decoding a non-empty item list undoes encoding, up to the closing bracket.
proof fn lemma_rt_items(items: Seq<JsonV>, ctx: Seq<char>, i: int)
    requires
        0 <= i,
        items.len() >= 1,
        i + jenc_items(items).len() + 1 <= ctx.len(),
        ctx.subrange(i, i + jenc_items(items).len() + 1) == jenc_items(items) + seq![']'],
    ensures
        jparse_items(ctx, i) == Some((items, i + jenc_items(items).len() + 1)),
    decreases items,
{
    let body = jenc_items(items) + seq![']'];
    let v0 = items[0];
    let e0 = jenc(v0);
    let n0 = e0.len() as int;
    lemma_jenc_first(v0);
    lemma_sub(ctx, i, body, 0, n0);
    assert(body.subrange(0, n0) =~= e0);
    lemma_rt_value(v0, ctx, i);
    let j0 = i + n0;
    if items.len() == 1 {
        lemma_at(ctx, i, body, n0);
        assert(ctx[j0] == ']');
        assert(seq![v0] =~= items);
    } else {
        lemma_at(ctx, i, body, n0);
        assert(body[n0] == ',');
        assert(ctx[j0] == ',');
        let rest = items.drop_first();
        lemma_sub(ctx, i, body, n0 + 1, body.len() as int);
        assert(body.subrange(n0 + 1, body.len() as int) =~= jenc_items(rest) + seq![']']);
        lemma_rt_items(rest, ctx, j0 + 1);
        assert(seq![v0] + rest =~= items);
    }
}

/// Decoding a non-empty member list undoes encoding, up to the closing brace.
proof fn lemma_rt_members(members: Seq<(Seq<char>, JsonV)>, ctx: Seq<char>, i: int)
    requires
        0 <= i,
        members.len() >= 1,
        i + jenc_members(members).len() + 1 <= ctx.len(),
        ctx.subrange(i, i + jenc_members(members).len() + 1) == jenc_members(members) + seq!['}'],
    ensures
        jparse_members(ctx, i) == Some((members, i + jenc_members(members).len() + 1)),
    decreases members,
{
    let body = jenc_members(members) + seq!['}'];
    let m0 = members[0];
    let key = m0.0;
    let v = m0.1;
    let e0 = jenc_member(m0);
    let n0 = e0.len() as int;
    let esc = esc_str(key);
    let ne = esc.len() as int;
    let nv = jenc(v).len() as int;
    lemma_jenc_first(v);
    lemma_at(ctx, i, body, 0);
    assert(body[0] == '"');
    // the key string, with its closing quote
    lemma_sub(ctx, i, body, 1, 2 + ne);
    assert(body.subrange(1, 2 + ne) =~= esc + seq!['"']);
    lemma_rt_string(key, ctx, i + 1);
    let j0 = i + 2 + ne;
    lemma_at(ctx, i, body, 2 + ne);
    assert(body[2 + ne] == ':');
    assert(ctx[j0] == ':');
    // the value
    lemma_sub(ctx, i, body, 3 + ne, 3 + ne + nv);
    assert(body.subrange(3 + ne, 3 + ne + nv) =~= jenc(v));
    lemma_rt_value(v, ctx, j0 + 1);
    let k0 = j0 + 1 + nv;
    assert(n0 == 3 + ne + nv);
    if members.len() == 1 {
        lemma_at(ctx, i, body, n0);
        assert(body[n0] == '}');
        assert(ctx[k0] == '}');
        assert((key, v) == m0);
        assert(seq![m0] =~= members);
    } else {
        lemma_at(ctx, i, body, n0);
        assert(body[n0] == ',');
        assert(ctx[k0] == ',');
        let rest = members.drop_first();
        lemma_sub(ctx, i, body, n0 + 1, body.len() as int);
        assert(body.subrange(n0 + 1, body.len() as int) =~= jenc_members(rest) + seq!['}']);
        lemma_rt_members(rest, ctx, k0 + 1);
        assert((key, v) == m0);
        assert(seq![m0] + rest =~= members);
    }
}

/// The round trip at the level of whole documents: decoding an encoded value
/// gives the value back.
pub proof fn lemma_parse_inverts_encode(j: JsonV)
    ensures
        jparse(jenc(j)) == Some(j),
{
    let s = jenc(j);
    assert(s.subrange(0, s.len() as int) =~= s);
    lemma_rt_value(j, s, 0);
}

/// Relies on String::push: appends exactly one character.
#[verifier::external_body]
pub(crate) fn push_char(out: &mut String, c: char)
    ensures
        final(out)@ == old(out)@ + seq![c],
{
    out.push(c);
}

/// Relies on String::insert at byte position zero: puts the character first.
#[verifier::external_body]
fn prepend_char(out: &mut String, c: char)
    ensures
        final(out)@ == seq![c] + old(out)@,
{
    out.insert(0, c);
}

/// Relies on char::from_u32: `Some` exactly for Unicode scalar values.
#[verifier::external_body]
fn char_from_u32(u: u32) -> (r: Option<char>)
    ensures
        r == if u < 0xD800 || (0xE000 <= u && u < 0x110000) {
            Some(u as char)
        } else {
            None::<char>
        },
{
    char::from_u32(u)
}

/// Escaping distributes over concatenation.
proof fn lemma_esc_str_app(a: Seq<char>, b: Seq<char>)
    ensures
        esc_str(a + b) == esc_str(a) + esc_str(b),
    decreases a.len(),
{
    if a.len() == 0 {
        assert(a + b =~= b);
        assert(esc_str(a) + esc_str(b) =~= esc_str(b));
    } else {
        assert((a + b).drop_first() =~= a.drop_first() + b);
        lemma_esc_str_app(a.drop_first(), b);
        assert((a + b)[0] == a[0]);
        assert(esc_char(a[0]) + (esc_str(a.drop_first()) + esc_str(b)) =~= (esc_char(a[0])
            + esc_str(a.drop_first())) + esc_str(b));
    }
}

fn hex_digit_exec(n: u32) -> (r: char)
    requires
        n < 16,
    ensures
        r == hex_digit(n as int),
{
    if n == 0 { '0' } else if n == 1 { '1' } else if n == 2 { '2' } else if n == 3 { '3' }
    else if n == 4 { '4' } else if n == 5 { '5' } else if n == 6 { '6' } else if n == 7 { '7' }
    else if n == 8 { '8' } else if n == 9 { '9' } else if n == 10 { 'a' } else if n == 11 { 'b' }
    else if n == 12 { 'c' } else if n == 13 { 'd' } else if n == 14 { 'e' } else { 'f' }
}

fn write_escaped_char(c: char, out: &mut String)
    ensures
        final(out)@ == old(out)@ + esc_char(c),
{
    if c == '"' {
        push_char(out, '\\');
        push_char(out, '"');
        assert(old(out)@ + seq!['\\'] + seq!['"'] =~= old(out)@ + esc_char(c));
    } else if c == '\\' {
        push_char(out, '\\');
        push_char(out, '\\');
        assert(old(out)@ + seq!['\\'] + seq!['\\'] =~= old(out)@ + esc_char(c));
    } else if (c as u32) < 0x20 {
        let u = c as u32;
        push_char(out, '\\');
        push_char(out, 'u');
        push_char(out, '0');
        push_char(out, '0');
        push_char(out, hex_digit_exec(u / 16));
        push_char(out, hex_digit_exec(u % 16));
        assert(old(out)@ + seq!['\\'] + seq!['u'] + seq!['0'] + seq!['0'] + seq![
            hex_digit((u / 16) as int),
        ] + seq![hex_digit((u % 16) as int)] =~= old(out)@ + esc_char(c));
    } else {
        push_char(out, c);
        assert(old(out)@ + seq![c] =~= old(out)@ + esc_char(c));
    }
}

fn write_escaped(s: &str, out: &mut String)
    ensures
        final(out)@ == old(out)@ + esc_str(s@),
{
    let n = s.unicode_len();
    let mut k: usize = 0;
    while k < n
        invariant
            n == s@.len(),
            k <= n,
            out@ == old(out)@ + esc_str(s@.take(k as int)),
        decreases n - k,
    {
        let c = s.get_char(k);
        write_escaped_char(c, out);
        proof {
            assert(s@.take(k as int) + seq![c] =~= s@.take(k + 1 as int));
            lemma_esc_str_app(s@.take(k as int), seq![c]);
            assert(esc_str(seq![c]) =~= esc_char(c)) by {
                assert(seq![c].len() == 1);
                assert(seq![c][0] == c);
                assert(esc_str(seq![c]) == esc_char(c) + esc_str(seq![c].drop_first()));
                assert(seq![c].drop_first() =~= Seq::<char>::empty());
                assert(esc_char(c) + Seq::<char>::empty() =~= esc_char(c));
            }
        }
        k = k + 1;
    }
    proof {
        assert(s@.take(n as int) =~= s@);
    }
}

/// Writes the canonical encoding of `v` after what `out` already holds.
fn write_json(v: &JsonValue, out: &mut String)
    ensures
        final(out)@ == old(out)@ + jenc(v@),
    decreases v, 0int,
{
    match v {
        JsonValue::Null => {
            push_char(out, 'n');
            push_char(out, 'u');
            push_char(out, 'l');
            push_char(out, 'l');
            assert(old(out)@ + seq!['n'] + seq!['u'] + seq!['l'] + seq!['l'] =~= old(out)@ + jenc(
                v@,
            ));
        },
        JsonValue::Bool(b) => {
            if *b {
                push_char(out, 't');
                push_char(out, 'r');
                push_char(out, 'u');
                push_char(out, 'e');
                assert(old(out)@ + seq!['t'] + seq!['r'] + seq!['u'] + seq!['e'] =~= old(out)@
                    + jenc(v@));
            } else {
                push_char(out, 'f');
                push_char(out, 'a');
                push_char(out, 'l');
                push_char(out, 's');
                push_char(out, 'e');
                assert(old(out)@ + seq!['f'] + seq!['a'] + seq!['l'] + seq!['s'] + seq!['e'] =~= old(
                    out,
                )@ + jenc(v@));
            }
        },
        JsonValue::Str(s) => {
            push_char(out, '"');
            write_escaped(s.as_str(), out);
            push_char(out, '"');
            assert(old(out)@ + seq!['"'] + esc_str(s@) + seq!['"'] =~= old(out)@ + jenc(v@));
        },
        JsonValue::Arr(items) => {
            push_char(out, '[');
            if items.len() == 0 {
                assert(jenc_items(v@->Arr_0) == Seq::<char>::empty());
            } else {
                write_items(items, 0, out);
            }
            push_char(out, ']');
            assert(v@->Arr_0.skip(0) =~= v@->Arr_0);
            assert(old(out)@ + seq!['['] + jenc_items(v@->Arr_0) + seq![']'] =~= old(out)@ + jenc(
                v@,
            ));
        },
        JsonValue::Obj(members) => {
            push_char(out, '{');
            if members.len() == 0 {
                assert(jenc_members(v@->Obj_0) == Seq::<char>::empty());
            } else {
                write_members(members, 0, out);
            }
            push_char(out, '}');
            assert(v@->Obj_0.skip(0) =~= v@->Obj_0);
            assert(old(out)@ + seq!['{'] + jenc_members(v@->Obj_0) + seq!['}'] =~= old(out)@
                + jenc(v@));
        },
    }
}

/// Writes the items of `items` from position `idx` on, comma-separated.
fn write_items(items: &Vec<JsonValue>, idx: usize, out: &mut String)
    requires
        idx < items@.len(),
    ensures
        final(out)@ == old(out)@ + jenc_items(JsonValue::Arr(*items)@->Arr_0.skip(idx as int)),
    decreases items, (items@.len() - idx) as int,
{
    let ghost vs = JsonValue::Arr(*items)@->Arr_0;
    write_json(&items[idx], out);
    proof {
        assert(vs.skip(idx as int)[0] == items@[idx as int]@);
    }
    if idx < items.len() - 1 {
        push_char(out, ',');
        write_items(items, idx + 1, out);
        proof {
            assert(vs.skip(idx as int).drop_first() =~= vs.skip(idx + 1 as int));
            assert(vs.skip(idx as int).len() > 1);
            assert(old(out)@ + jenc(items@[idx as int]@) + seq![','] + jenc_items(
                vs.skip(idx + 1 as int),
            ) =~= old(out)@ + jenc_items(vs.skip(idx as int)));
        }
    } else {
        proof {
            assert(vs.skip(idx as int).len() == 1);
        }
    }
}

/// Writes the members of `members` from position `idx` on, comma-separated.
fn write_members(members: &Vec<(String, JsonValue)>, idx: usize, out: &mut String)
    requires
        idx < members@.len(),
    ensures
        final(out)@ == old(out)@ + jenc_members(JsonValue::Obj(*members)@->Obj_0.skip(idx as int)),
    decreases members, (members@.len() - idx) as int,
{
    let ghost ms = JsonValue::Obj(*members)@->Obj_0;
    push_char(out, '"');
    write_escaped(members[idx].0.as_str(), out);
    push_char(out, '"');
    push_char(out, ':');
    write_json(&members[idx].1, out);
    proof {
        assert(ms.skip(idx as int)[0] == (members@[idx as int].0@, members@[idx as int].1@));
        assert(jenc_member(ms.skip(idx as int)[0]) =~= seq!['"'] + esc_str(
            members@[idx as int].0@,
        ) + seq!['"', ':'] + jenc(members@[idx as int].1@));
    }
    if idx < members.len() - 1 {
        push_char(out, ',');
        write_members(members, idx + 1, out);
        proof {
            assert(ms.skip(idx as int).drop_first() =~= ms.skip(idx + 1 as int));
            assert(ms.skip(idx as int).len() > 1);
            assert(old(out)@ + jenc_member(ms.skip(idx as int)[0]) + seq![','] + jenc_members(
                ms.skip(idx + 1 as int),
            ) =~= old(out)@ + jenc_members(ms.skip(idx as int)));
        }
    } else {
        proof {
            assert(ms.skip(idx as int).len() == 1);
            assert(old(out)@ + jenc_member(ms.skip(idx as int)[0]) =~= old(out)@ + jenc_members(
                ms.skip(idx as int),
            ));
        }
    }
}

fn hex_value_exec(c: char) -> (r: u32)
    ensures
        r as int == hex_value(c),
{
    if c == '0' { 0 } else if c == '1' { 1 } else if c == '2' { 2 } else if c == '3' { 3 }
    else if c == '4' { 4 } else if c == '5' { 5 } else if c == '6' { 6 } else if c == '7' { 7 }
    else if c == '8' { 8 } else if c == '9' { 9 }
    else if c == 'a' || c == 'A' { 10 } else if c == 'b' || c == 'B' { 11 }
    else if c == 'c' || c == 'C' { 12 } else if c == 'd' || c == 'D' { 13 }
    else if c == 'e' || c == 'E' { 14 } else if c == 'f' || c == 'F' { 15 }
    else { 16 }
}

fn parse_string_exec(s: &str, i: usize, n: usize) -> (r: Option<(String, usize)>)
    requires
        n == s@.len(),
        i <= n,
    ensures
        match r {
            Some(p) => jparse_string(s@, i as int) == Some((p.0@, p.1 as int)) && p.1 <= n,
            None => jparse_string(s@, i as int) is None,
        },
    decreases n - i,
{
    if i >= n {
        return None;
    }
    let c = s.get_char(i);
    if c == '"' {
        Some((String::new(), i + 1))
    } else if c == '\\' {
        if n - i < 2 {
            return None;
        }
        let e = s.get_char(i + 1);
        if e == 'u' {
            if n - i < 6 {
                return None;
            }
            let h0 = hex_value_exec(s.get_char(i + 2));
            let h1 = hex_value_exec(s.get_char(i + 3));
            let h2 = hex_value_exec(s.get_char(i + 4));
            let h3 = hex_value_exec(s.get_char(i + 5));
            if h0 < 16 && h1 < 16 && h2 < 16 && h3 < 16 {
                let code: u32 = h0 * 4096 + h1 * 256 + h2 * 16 + h3;
                if code < 0xD800 || 0xE000 <= code {
                    match char_from_u32(code) {
                        Some(c2) => {
                            match parse_string_exec(s, i + 6, n) {
                                None => None,
                                Some((mut rest, j)) => {
                                    prepend_char(&mut rest, c2);
                                    Some((rest, j))
                                },
                            }
                        },
                        None => {
                            proof {
                                assert(false);
                            }
                            None
                        },
                    }
                } else {
                    None
                }
            } else {
                None
            }
        } else if e == '"' || e == '\\' || e == '/' || e == 'n' || e == 't' || e == 'r' || e == 'b'
            || e == 'f' {
            let c2 = if e == '"' { '"' } else if e == '\\' { '\\' } else if e == '/' { '/' }
            else if e == 'n' { '\n' } else if e == 't' { '\t' } else if e == 'r' { '\r' }
            else if e == 'b' { '\u{08}' } else { '\u{0C}' };
            match parse_string_exec(s, i + 2, n) {
                None => None,
                Some((mut rest, j)) => {
                    prepend_char(&mut rest, c2);
                    Some((rest, j))
                },
            }
        } else {
            None
        }
    } else if (c as u32) >= 0x20 {
        match parse_string_exec(s, i + 1, n) {
            None => None,
            Some((mut rest, j)) => {
                prepend_char(&mut rest, c);
                Some((rest, j))
            },
        }
    } else {
        None
    }
}

/// A four-character region equals a four-character word exactly when the
/// characters match one by one.
proof fn lemma_lit4(ss: Seq<char>, ii: int, a: char, b: char, c: char, d: char)
    requires
        0 <= ii,
        ii + 4 <= ss.len(),
    ensures
        (ss.subrange(ii, ii + 4) == seq![a, b, c, d]) <==> (ss[ii] == a && ss[ii + 1] == b
            && ss[ii + 2] == c && ss[ii + 3] == d),
{
    if ss.subrange(ii, ii + 4) == seq![a, b, c, d] {
        assert(ss.subrange(ii, ii + 4)[0] == a && ss.subrange(ii, ii + 4)[1] == b && ss.subrange(
            ii,
            ii + 4,
        )[2] == c && ss.subrange(ii, ii + 4)[3] == d);
    }
    if ss[ii] == a && ss[ii + 1] == b && ss[ii + 2] == c && ss[ii + 3] == d {
        assert(ss.subrange(ii, ii + 4) =~= seq![a, b, c, d]);
    }
}

proof fn lemma_lit5(ss: Seq<char>, ii: int, a: char, b: char, c: char, d: char, e: char)
    requires
        0 <= ii,
        ii + 5 <= ss.len(),
    ensures
        (ss.subrange(ii, ii + 5) == seq![a, b, c, d, e]) <==> (ss[ii] == a && ss[ii + 1] == b
            && ss[ii + 2] == c && ss[ii + 3] == d && ss[ii + 4] == e),
{
    if ss.subrange(ii, ii + 5) == seq![a, b, c, d, e] {
        assert(ss.subrange(ii, ii + 5)[0] == a && ss.subrange(ii, ii + 5)[1] == b && ss.subrange(
            ii,
            ii + 5,
        )[2] == c && ss.subrange(ii, ii + 5)[3] == d && ss.subrange(ii, ii + 5)[4] == e);
    }
    if ss[ii] == a && ss[ii + 1] == b && ss[ii + 2] == c && ss[ii + 3] == d && ss[ii + 4] == e {
        assert(ss.subrange(ii, ii + 5) =~= seq![a, b, c, d, e]);
    }
}

proof fn lemma_arr_view_insert0(items: Vec<JsonValue>, v: JsonValue, items2: Vec<JsonValue>)
    requires
        items2@ == items@.insert(0, v),
    ensures
        JsonValue::Arr(items2)@->Arr_0 =~= seq![v@] + JsonValue::Arr(items)@->Arr_0,
{
}

proof fn lemma_obj_view_insert0(
    members: Vec<(String, JsonValue)>,
    k: String,
    v: JsonValue,
    members2: Vec<(String, JsonValue)>,
)
    requires
        members2@ == members@.insert(0, (k, v)),
    ensures
        JsonValue::Obj(members2)@->Obj_0 =~= seq![(k@, v@)] + JsonValue::Obj(members)@->Obj_0,
{
}

fn parse_value_exec(s: &str, i: usize, n: usize) -> (r: Option<(JsonValue, usize)>)
    requires
        n == s@.len(),
        i <= n,
    ensures
        match r {
            Some(p) => jparse_value(s@, i as int) == Some((p.0@, p.1 as int)) && p.1 <= n,
            None => jparse_value(s@, i as int) is None,
        },
    decreases n - i, 0int,
{
    if i >= n {
        return None;
    }
    let c = s.get_char(i);
    if c == 'n' {
        if n - i >= 4 {
            proof {
                lemma_lit4(s@, i as int, 'n', 'u', 'l', 'l');
            }
            if s.get_char(i + 1) == 'u' && s.get_char(i + 2) == 'l' && s.get_char(i + 3) == 'l' {
                Some((JsonValue::Null, i + 4))
            } else {
                None
            }
        } else {
            None
        }
    } else if c == 't' {
        if n - i >= 4 {
            proof {
                lemma_lit4(s@, i as int, 't', 'r', 'u', 'e');
            }
            if s.get_char(i + 1) == 'r' && s.get_char(i + 2) == 'u' && s.get_char(i + 3) == 'e' {
                Some((JsonValue::Bool(true), i + 4))
            } else {
                None
            }
        } else {
            None
        }
    } else if c == 'f' {
        if n - i >= 5 {
            proof {
                lemma_lit5(s@, i as int, 'f', 'a', 'l', 's', 'e');
            }
            if s.get_char(i + 1) == 'a' && s.get_char(i + 2) == 'l' && s.get_char(i + 3) == 's'
                && s.get_char(i + 4) == 'e' {
                Some((JsonValue::Bool(false), i + 5))
            } else {
                None
            }
        } else {
            None
        }
    } else if c == '"' {
        match parse_string_exec(s, i + 1, n) {
            None => None,
            Some((cs, j)) => Some((JsonValue::Str(cs), j)),
        }
    } else if c == '[' {
        if i + 1 < n && s.get_char(i + 1) == ']' {
            let items: Vec<JsonValue> = Vec::new();
            proof {
                assert(JsonValue::Arr(items)@->Arr_0 =~= Seq::<JsonV>::empty());
            }
            Some((JsonValue::Arr(items), i + 2))
        } else {
            match parse_items_exec(s, i + 1, n) {
                None => None,
                Some((items, j)) => Some((JsonValue::Arr(items), j)),
            }
        }
    } else if c == '{' {
        if i + 1 < n && s.get_char(i + 1) == '}' {
            let members: Vec<(String, JsonValue)> = Vec::new();
            proof {
                assert(JsonValue::Obj(members)@->Obj_0 =~= Seq::<(Seq<char>, JsonV)>::empty());
            }
            Some((JsonValue::Obj(members), i + 2))
        } else {
            match parse_members_exec(s, i + 1, n) {
                None => None,
                Some((members, j)) => Some((JsonValue::Obj(members), j)),
            }
        }
    } else {
        None
    }
}

fn parse_items_exec(s: &str, i: usize, n: usize) -> (r: Option<(Vec<JsonValue>, usize)>)
    requires
        n == s@.len(),
        i <= n,
    ensures
        match r {
            Some(p) => jparse_items(s@, i as int) == Some(
                (JsonValue::Arr(p.0)@->Arr_0, p.1 as int),
            ) && p.1 <= n,
            None => jparse_items(s@, i as int) is None,
        },
    decreases n - i, 1int,
{
    if i >= n {
        return None;
    }
    match parse_value_exec(s, i, n) {
        None => None,
        Some((v, j0)) => {
            // mirrors the specification's termination guard; a parse in fact
            // always moves right, so the first branch is never taken
            let j = if j0 <= i { i + 1 } else { j0 };
            if j < n && s.get_char(j) == ',' {
                match parse_items_exec(s, j + 1, n) {
                    None => None,
                    Some((mut rest, k)) => {
                        let ghost rest0 = rest;
                        rest.insert(0, v);
                        proof {
                            lemma_arr_view_insert0(rest0, v, rest);
                        }
                        Some((rest, k))
                    },
                }
            } else if j < n && s.get_char(j) == ']' {
                let mut items = Vec::new();
                items.push(v);
                proof {
                    assert(JsonValue::Arr(items)@->Arr_0 =~= seq![v@]);
                }
                Some((items, j + 1))
            } else {
                None
            }
        },
    }
}

fn parse_members_exec(s: &str, i: usize, n: usize) -> (r: Option<
    (Vec<(String, JsonValue)>, usize),
>)
    requires
        n == s@.len(),
        i <= n,
    ensures
        match r {
            Some(p) => jparse_members(s@, i as int) == Some(
                (JsonValue::Obj(p.0)@->Obj_0, p.1 as int),
            ) && p.1 <= n,
            None => jparse_members(s@, i as int) is None,
        },
    decreases n - i, 2int,
{
    if i >= n {
        return None;
    }
    if s.get_char(i) != '"' {
        return None;
    }
    match parse_string_exec(s, i + 1, n) {
        None => None,
        Some((key, j0)) => {
            let j = if j0 <= i + 1 {
                i + 2
            } else {
                j0
            };
            if j < n && s.get_char(j) == ':' {
                match parse_value_exec(s, j + 1, n) {
                    None => None,
                    Some((v, k0)) => {
                        let k = if k0 <= j + 1 {
                            j + 2
                        } else {
                            k0
                        };
                        if k < n && s.get_char(k) == ',' {
                            match parse_members_exec(s, k + 1, n) {
                                None => None,
                                Some((mut rest, m)) => {
                                    let ghost rest0 = rest;
                                    let ghost keyv = key@;
                                    let ghost vv = v@;
                                    rest.insert(0, (key, v));
                                    proof {
                                        lemma_obj_view_insert0(rest0, key, v, rest);
                                        assert(seq![(keyv, vv)] + JsonValue::Obj(rest0)@->Obj_0
                                            =~= JsonValue::Obj(rest)@->Obj_0);
                                    }
                                    Some((rest, m))
                                },
                            }
                        } else if k < n && s.get_char(k) == '}' {
                            let ghost keyv = key@;
                            let ghost vv = v@;
                            let mut members = Vec::new();
                            members.push((key, v));
                            proof {
                                assert(JsonValue::Obj(members)@->Obj_0 =~= seq![(keyv, vv)]);
                            }
                            Some((members, k + 1))
                        } else {
                            None
                        }
                    },
                }
            } else {
                None
            }
        },
    }
}

/// Decodes a document; `None` on any text the grammar refuses.
pub fn parse_json(s: &str) -> (r: Option<JsonValue>)
    ensures
        match r {
            Some(v) => jparse(s@) == Some(v@),
            None => jparse(s@) is None,
        },
{
    let n = s.unicode_len();
    match parse_value_exec(s, 0, n) {
        None => None,
        Some((v, j)) => if j == n {
            Some(v)
        } else {
            None
        },
    }
}

/// Encodes a document as its canonical text.
pub fn encode_json(v: &JsonValue) -> (r: String)
    ensures
        r@ == jenc(v@),
{
    let mut out = String::new();
    write_json(v, &mut out);
    proof {
        assert(Seq::<char>::empty() + jenc(v@) =~= jenc(v@));
    }
    out
}

/// The first value stored under `key`, walking the members in order.
pub open spec fn lookup(ms: Seq<(Seq<char>, JsonV)>, key: Seq<char>) -> Option<JsonV>
    decreases ms.len(),
{
    if ms.len() == 0 {
        None
    } else if ms[0].0 == key {
        Some(ms[0].1)
    } else {
        lookup(ms.drop_first(), key)
    }
}

/// Looking a key up in a concatenation tries the left part first.
pub proof fn lemma_lookup_app(
    a: Seq<(Seq<char>, JsonV)>,
    b: Seq<(Seq<char>, JsonV)>,
    key: Seq<char>,
)
    ensures
        lookup(a + b, key) == match lookup(a, key) {
            Some(v) => Some(v),
            None => lookup(b, key),
        },
    decreases a.len(),
{
    if a.len() == 0 {
        assert(a + b =~= b);
    } else {
        assert((a + b)[0] == a[0]);
        assert((a + b).drop_first() =~= a.drop_first() + b);
        lemma_lookup_app(a.drop_first(), b, key);
    }
}

/// A member that must be present and hold a string.
pub open spec fn req_str(ms: Seq<(Seq<char>, JsonV)>, key: Seq<char>) -> Option<Seq<char>> {
    match lookup(ms, key) {
        Some(JsonV::Str(s)) => Some(s),
        _ => None,
    }
}

/// A member that may be absent or null (no value), or hold a string;
/// `None` marks any other, ill-formed shape.
pub open spec fn opt_str(ms: Seq<(Seq<char>, JsonV)>, key: Seq<char>) -> Option<
    Option<Seq<char>>,
> {
    match lookup(ms, key) {
        None => Some(None),
        Some(JsonV::Null) => Some(None),
        Some(JsonV::Str(s)) => Some(Some(s)),
        Some(_) => None,
    }
}

/// A member that may be absent or null (no value) or hold any document.
pub open spec fn opt_val(ms: Seq<(Seq<char>, JsonV)>, key: Seq<char>) -> Option<JsonV> {
    match lookup(ms, key) {
        None => None,
        Some(JsonV::Null) => None,
        Some(v) => Some(v),
    }
}

impl JsonValue {
    /// A structural copy whose model equals this one's.
    pub fn duplicate(&self) -> (r: JsonValue)
        ensures
            r@ == self@,
        decreases self, 0int,
    {
        match self {
            JsonValue::Null => JsonValue::Null,
            JsonValue::Bool(b) => JsonValue::Bool(*b),
            JsonValue::Str(s) => JsonValue::Str(s.clone()),
            JsonValue::Arr(items) => {
                let out = duplicate_items(items, 0);
                proof {
                    assert forall|m: int| 0 <= m < items@.len() implies JsonValue::Arr(
                        out,
                    )@->Arr_0[m] == self@->Arr_0[m] by {
                        assert(out@[m]@ == items@[m]@);
                    }
                    assert(JsonValue::Arr(out)@->Arr_0 =~= self@->Arr_0);
                    assert(JsonValue::Arr(out)@ =~= self@);
                }
                JsonValue::Arr(out)
            },
            JsonValue::Obj(members) => {
                let out = duplicate_members(members, 0);
                proof {
                    assert forall|m: int| 0 <= m < members@.len() implies JsonValue::Obj(
                        out,
                    )@->Obj_0[m] == self@->Obj_0[m] by {
                        assert(out@[m].0@ == members@[m].0@ && out@[m].1@ == members@[m].1@);
                    }
                    assert(JsonValue::Obj(out)@->Obj_0 =~= self@->Obj_0);
                    assert(JsonValue::Obj(out)@ =~= self@);
                }
                JsonValue::Obj(out)
            },
        }
    }
}

fn duplicate_items(items: &Vec<JsonValue>, idx: usize) -> (r: Vec<JsonValue>)
    requires
        idx <= items@.len(),
    ensures
        r@.len() == items@.len() - idx,
        forall|m: int| 0 <= m < r@.len() ==> #[trigger] r@[m]@ == items@[idx + m]@,
    decreases items, (items@.len() - idx) as int,
{
    if idx < items.len() {
        let first = items[idx].duplicate();
        let mut rest = duplicate_items(items, idx + 1);
        rest.insert(0, first);
        rest
    } else {
        Vec::new()
    }
}

fn duplicate_members(members: &Vec<(String, JsonValue)>, idx: usize) -> (r: Vec<
    (String, JsonValue),
>)
    requires
        idx <= members@.len(),
    ensures
        r@.len() == members@.len() - idx,
        forall|m: int| 0 <= m < r@.len() ==> (#[trigger] r@[m]).0@ == members@[idx + m].0@
            && r@[m].1@ == members@[idx + m].1@,
    decreases members, (members@.len() - idx) as int,
{
    if idx < members.len() {
        let key = members[idx].0.clone();
        let v = members[idx].1.duplicate();
        let mut rest = duplicate_members(members, idx + 1);
        rest.insert(0, (key, v));
        rest
    } else {
        Vec::new()
    }
}

impl Clone for JsonValue {
    /// A structural copy whose model equals this one's.
    fn clone(&self) -> (r: JsonValue)
        ensures
            r@ == self@,
    {
        self.duplicate()
    }
}

/// The position of the first member stored under `key`.
pub(crate) fn lookup_exec(ms: &Vec<(String, JsonValue)>, key: &String) -> (r: Option<usize>)
    ensures
        match r {
            Some(idx) => idx < ms@.len() && ms@[idx as int].0@ == key@ && lookup(
                JsonValue::Obj(*ms)@->Obj_0,
                key@,
            ) == Some(ms@[idx as int].1@),
            None => lookup(JsonValue::Obj(*ms)@->Obj_0, key@) is None,
        },
{
    let ghost whole = JsonValue::Obj(*ms)@->Obj_0;
    proof {
        assert(whole.skip(0) =~= whole);
    }
    let mut k: usize = 0;
    while k < ms.len()
        invariant
            k <= ms@.len(),
            whole == JsonValue::Obj(*ms)@->Obj_0,
            lookup(whole, key@) == lookup(whole.skip(k as int), key@),
        decreases ms@.len() - k,
    {
        proof {
            assert(whole.skip(k as int)[0] == whole[k as int]);
            assert(whole[k as int] == (ms@[k as int].0@, ms@[k as int].1@));
        }
        if ms[k].0 == *key {
            return Some(k);
        }
        proof {
            assert(whole.skip(k as int).drop_first() =~= whole.skip(k + 1 as int));
        }
        k = k + 1;
    }
    proof {
        assert(whole.skip(ms@.len() as int) =~= Seq::<(Seq<char>, JsonV)>::empty());
    }
    None
}

/// Reads a member that must hold a string.
pub(crate) fn get_req_str(ms: &Vec<(String, JsonValue)>, key: &String) -> (r: Option<String>)
    ensures
        match r {
            Some(s) => req_str(JsonValue::Obj(*ms)@->Obj_0, key@) == Some(s@),
            None => req_str(JsonValue::Obj(*ms)@->Obj_0, key@) is None,
        },
{
    match lookup_exec(ms, key) {
        Some(idx) => match &ms[idx].1 {
            JsonValue::Str(s) => Some(s.clone()),
            _ => None,
        },
        None => None,
    }
}

/// Reads a member that may be absent or null, or hold a string.
pub(crate) fn get_opt_str(ms: &Vec<(String, JsonValue)>, key: &String) -> (r: Option<
    Option<String>,
>)
    ensures
        match r {
            Some(o) => opt_str(JsonValue::Obj(*ms)@->Obj_0, key@) == Some(
                match o {
                    Some(s) => Some(s@),
                    None => None::<Seq<char>>,
                },
            ),
            None => opt_str(JsonValue::Obj(*ms)@->Obj_0, key@) is None,
        },
{
    match lookup_exec(ms, key) {
        Some(idx) => match &ms[idx].1 {
            JsonValue::Null => Some(None),
            JsonValue::Str(s) => Some(Some(s.clone())),
            _ => None,
        },
        None => Some(None),
    }
}

/// Reads a member that may be absent or null, or hold any document.
pub(crate) fn get_opt_val(ms: &Vec<(String, JsonValue)>, key: &String) -> (r: Option<JsonValue>)
    ensures
        match r {
            Some(v) => opt_val(JsonValue::Obj(*ms)@->Obj_0, key@) == Some(v@),
            None => opt_val(JsonValue::Obj(*ms)@->Obj_0, key@) is None,
        },
{
    match lookup_exec(ms, key) {
        Some(idx) => match &ms[idx].1 {
            JsonValue::Null => None,
            _ => Some(ms[idx].1.duplicate()),
        },
        None => None,
    }
}

pub(crate) fn push_member(ms: &mut Vec<(String, JsonValue)>, key: &str, v: JsonValue)
    ensures
        JsonValue::Obj(*final(ms))@->Obj_0 == JsonValue::Obj(*old(ms))@->Obj_0 + seq![(key@, v@)],
{
    let ghost prev = JsonValue::Obj(*ms)@->Obj_0;
    let ghost vv = v@;
    ms.push((String::from_str(key), v));
    proof {
        assert(ms@[ms@.len() - 1].1@ == vv);
        assert forall|i: int| 0 <= i < prev.len() + 1 implies JsonValue::Obj(*ms)@->Obj_0[i] == (
        prev + seq![(key@, vv)])[i] by {
            if i < prev.len() {
                assert(ms@[i] == old(ms)@[i]);
            }
        }
        assert(JsonValue::Obj(*ms)@->Obj_0 =~= prev + seq![(key@, vv)]);
    }
}

} // verus!
