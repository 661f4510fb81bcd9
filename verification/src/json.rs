//! JSON text for the structured details that errors carry: strings with
//! their escapes, arrays of strings, numbers and flat objects.
use vstd::prelude::*;

use crate::text::{
    chars_of, decimal, digit_char, join, push_joined, push_signed_decimal, push_str, signed_decimal,
    string_from_chars, views, decimal_string,
};

verus! {

/// The hexadecimal digit for `d < 16` (lower case).
pub open spec fn hex_char(d: nat) -> char {
    if d < 10 {
        digit_char(d)
    } else {
        ((d - 10 + 'a' as u32) as u32) as char
    }
}

/// The JSON escape of one character inside a string literal.
pub open spec fn json_escape_char(c: char) -> Seq<char> {
    if c == '"' {
        seq!['\\', '"']
    } else if c == '\\' {
        seq!['\\', '\\']
    } else if c == '\n' {
        seq!['\\', 'n']
    } else if c == '\r' {
        seq!['\\', 'r']
    } else if c == '\t' {
        seq!['\\', 't']
    } else if (c as u32) < 0x20 {
        seq!['\\', 'u', '0', '0', hex_char((c as u32 / 16) as nat), hex_char((c as u32 % 16) as nat)]
    } else {
        seq![c]
    }
}

/// The JSON escape of every character of `s`, in order.
pub open spec fn json_escape(s: Seq<char>) -> Seq<char>
    decreases s.len(),
{
    if s.len() == 0 {
        Seq::<char>::empty()
    } else {
        json_escape(s.drop_last()) + json_escape_char(s.last())
    }
}

/// The JSON string literal that stands for `s`.
pub open spec fn json_str(s: Seq<char>) -> Seq<char> {
    seq!['"'] + json_escape(s) + seq!['"']
}

/// The JSON array of the string literals of `items`.
pub open spec fn json_str_array(items: Seq<Seq<char>>) -> Seq<char> {
    seq!['['] + join(items.map_values(|s: Seq<char>| json_str(s)), seq![',']) + seq![']']
}

/// JSON `null`.
pub open spec fn json_null() -> Seq<char> {
    seq!['n', 'u', 'l', 'l']
}

/// A JSON string literal, or `null` for `None`.
pub open spec fn json_opt_str(s: Option<Seq<char>>) -> Seq<char> {
    match s {
        Some(t) => json_str(t),
        None => json_null(),
    }
}

/// One member of a JSON object: the key's literal, a colon and the value.
pub open spec fn json_member(key: Seq<char>, value: Seq<char>) -> Seq<char> {
    json_str(key) + seq![':'] + value
}

/// The JSON object whose members are `keys[i]: values[i]`, in order;
/// `values` are JSON texts.
pub open spec fn json_object(keys: Seq<Seq<char>>, values: Seq<Seq<char>>) -> Seq<char> {
    seq!['{'] + join(
        Seq::new(keys.len(), |i: int| json_member(keys[i], values[i])),
        seq![','],
    ) + seq!['}']
}

fn hex_char_exec(d: u32) -> (c: char)
    requires
        d < 16,
    ensures
        c == hex_char(d as nat),
{
    if d < 10 {
        if d == 0 { '0' }
        else if d == 1 { '1' }
        else if d == 2 { '2' }
        else if d == 3 { '3' }
        else if d == 4 { '4' }
        else if d == 5 { '5' }
        else if d == 6 { '6' }
        else if d == 7 { '7' }
        else if d == 8 { '8' }
        else { '9' }
    } else if d == 10 { 'a' }
    else if d == 11 { 'b' }
    else if d == 12 { 'c' }
    else if d == 13 { 'd' }
    else if d == 14 { 'e' }
    else { 'f' }
}

/// Appends the escape of one character to `out`.
fn push_escaped_char(out: &mut Vec<char>, c: char)
    ensures
        final(out)@ == old(out)@ + json_escape_char(c),
{
    let ghost start = out@;
    if c == '"' {
        out.push('\\');
        out.push('"');
    } else if c == '\\' {
        out.push('\\');
        out.push('\\');
    } else if c == '\n' {
        out.push('\\');
        out.push('n');
    } else if c == '\r' {
        out.push('\\');
        out.push('r');
    } else if c == '\t' {
        out.push('\\');
        out.push('t');
    } else if (c as u32) < 0x20 {
        let u = c as u32;
        out.push('\\');
        out.push('u');
        out.push('0');
        out.push('0');
        let hi = hex_char_exec(u / 16);
        let lo = hex_char_exec(u % 16);
        out.push(hi);
        out.push(lo);
    } else {
        out.push(c);
    }
    assert(out@ =~= start + json_escape_char(c));
}

/// Appends the JSON string literal of `s` to `out`.
pub fn push_json_str(out: &mut Vec<char>, s: &str)
    ensures
        final(out)@ == old(out)@ + json_str(s@),
{
    let ghost start = out@;
    let v = chars_of(s);
    out.push('"');
    let mut i: usize = 0;
    while i < v.len()
        invariant
            i <= v.len(),
            out@ == start + seq!['"'] + json_escape(v@.take(i as int)),
        decreases v.len() - i,
    {
        push_escaped_char(out, v[i]);
        assert(v@.take(i + 1).drop_last() =~= v@.take(i as int));
        assert(out@ =~= start + seq!['"'] + json_escape(v@.take(i + 1)));
        i = i + 1;
    }
    assert(v@.take(v.len() as int) =~= v@);
    out.push('"');
    assert(out@ =~= start + json_str(s@));
}

/// The JSON string literal of `s`.
pub fn json_string(s: &str) -> (out: String)
    ensures
        out@ == json_str(s@),
{
    let mut v: Vec<char> = Vec::new();
    push_json_str(&mut v, s);
    assert(v@ =~= json_str(s@));
    string_from_chars(v.as_slice())
}

/// The JSON string literal of `s`, or `null`.
pub fn json_opt_string(s: &Option<String>) -> (out: String)
    ensures
        out@ == json_opt_str(match s {
            Some(t) => Some(t@),
            None => None,
        }),
{
    match s {
        Some(t) => json_string(t.as_str()),
        None => {
            let v = vec!['n', 'u', 'l', 'l'];
            assert(v@ =~= json_null());
            string_from_chars(v.as_slice())
        },
    }
}

/// The JSON array of the string literals of `items`.
pub fn json_string_array(items: &Vec<String>) -> (out: String)
    ensures
        out@ == json_str_array(views(items@)),
{
    let ghost lits = views(items@).map_values(|s: Seq<char>| json_str(s));
    let mut v: Vec<char> = Vec::new();
    v.push('[');
    let mut i: usize = 0;
    while i < items.len()
        invariant
            i <= items.len(),
            lits == views(items@).map_values(|s: Seq<char>| json_str(s)),
            v@ == seq!['['] + join(lits.take(i as int), seq![',']),
        decreases items.len() - i,
    {
        let ghost before = v@;
        if i > 0 {
            v.push(',');
        }
        push_json_str(&mut v, items[i].as_str());
        let ghost t = lits.take(i + 1);
        assert(t.drop_last() =~= lits.take(i as int));
        assert(t.last() == json_str(items@[i as int]@));
        if i == 0 {
            assert(join(t, seq![',']) == t[0]);
        }
        assert(v@ =~= seq!['['] + join(t, seq![',']));
        i = i + 1;
    }
    assert(lits.take(items.len() as int) =~= lits);
    v.push(']');
    assert(v@ =~= json_str_array(views(items@)));
    string_from_chars(v.as_slice())
}

/// The JSON object whose members are `keys[i]: values[i]`; `values` hold
/// JSON texts.
pub fn json_object_text(keys: &Vec<String>, values: &Vec<String>) -> (out: String)
    requires
        keys.len() == values.len(),
    ensures
        out@ == json_object(views(keys@), views(values@)),
{
    let ghost members = Seq::new(
        keys@.len(),
        |i: int| json_member(views(keys@)[i], views(values@)[i]),
    );
    let mut v: Vec<char> = Vec::new();
    v.push('{');
    let mut i: usize = 0;
    while i < keys.len()
        invariant
            i <= keys.len(),
            keys.len() == values.len(),
            members == Seq::new(
                keys@.len(),
                |i: int| json_member(views(keys@)[i], views(values@)[i]),
            ),
            v@ == seq!['{'] + join(members.take(i as int), seq![',']),
        decreases keys.len() - i,
    {
        if i > 0 {
            v.push(',');
        }
        push_json_str(&mut v, keys[i].as_str());
        v.push(':');
        push_str(&mut v, values[i].as_str());
        let ghost t = members.take(i + 1);
        assert(t.drop_last() =~= members.take(i as int));
        assert(t.last() == json_member(keys@[i as int]@, values@[i as int]@));
        if i == 0 {
            assert(join(t, seq![',']) == t[0]);
        }
        assert(v@ =~= seq!['{'] + join(t, seq![',']));
        i = i + 1;
    }
    assert(members.take(keys.len() as int) =~= members);
    v.push('}');
    assert(v@ =~= json_object(views(keys@), views(values@)));
    string_from_chars(v.as_slice())
}

/// The JSON number for an unsigned value.
pub fn json_u64(n: u64) -> (out: String)
    ensures
        out@ == decimal(n as nat),
{
    decimal_string(n)
}

/// The JSON number for a signed value.
pub fn json_i64(n: i64) -> (out: String)
    ensures
        out@ == signed_decimal(n as int),
{
    let mut v: Vec<char> = Vec::new();
    push_signed_decimal(&mut v, n);
    assert(v@ =~= signed_decimal(n as int));
    string_from_chars(v.as_slice())
}

/// The JSON array of the JSON texts `items`.
pub open spec fn json_array(items: Seq<Seq<char>>) -> Seq<char> {
    seq!['['] + join(items, seq![',']) + seq![']']
}

/// JSON `true` or `false`.
pub open spec fn json_bool(b: bool) -> Seq<char> {
    if b {
        seq!['t', 'r', 'u', 'e']
    } else {
        seq!['f', 'a', 'l', 's', 'e']
    }
}

/// The JSON array of the JSON texts `items`.
pub fn json_array_text(items: &Vec<String>) -> (out: String)
    ensures
        out@ == json_array(views(items@)),
{
    let mut v: Vec<char> = vec!['['];
    let sep = vec![','];
    assert(sep@ =~= seq![',']);
    push_joined(&mut v, items, sep.as_slice());
    v.push(']');
    assert(v@ =~= json_array(views(items@)));
    string_from_chars(v.as_slice())
}

/// The JSON text of a boolean.
pub fn json_boolean(b: bool) -> (out: String)
    ensures
        out@ == json_bool(b),
{
    let v = if b {
        vec!['t', 'r', 'u', 'e']
    } else {
        vec!['f', 'a', 'l', 's', 'e']
    };
    assert(v@ =~= json_bool(b));
    string_from_chars(v.as_slice())
}

// ---------------------------------------------------------------------------
// Reading JSON strings back
// ---------------------------------------------------------------------------

/// The value of a hexadecimal digit, if `c` is one.
pub open spec fn hex_value(c: char) -> Option<nat> {
    if '0' <= c <= '9' {
        Some((c as u32 - '0' as u32) as nat)
    } else if 'a' <= c <= 'f' {
        Some((c as u32 - 'a' as u32 + 10) as nat)
    } else if 'A' <= c <= 'F' {
        Some((c as u32 - 'A' as u32 + 10) as nat)
    } else {
        None
    }
}

/// `x` in front of a read-back text, if there is one.
pub open spec fn prepend(x: char, rest: Option<Seq<char>>) -> Option<Seq<char>> {
    match rest {
        Some(r) => Some(seq![x] + r),
        None => None,
    }
}

/// The text that the inside of a JSON string literal stands for, read as
/// a JSON reader does; nothing when it is not valid there (a bare quote or
/// control character, or a backslash that starts no escape).
pub open spec fn json_unescape(s: Seq<char>) -> Option<Seq<char>>
    decreases s.len(),
{
    if s.len() == 0 {
        Some(Seq::<char>::empty())
    } else if s[0] == '\\' {
        if s.len() < 2 {
            None
        } else {
            let e = s[1];
            let rest2 = s.subrange(2, s.len() as int);
            if e == '"' || e == '\\' || e == '/' {
                prepend(e, json_unescape(rest2))
            } else if e == 'n' {
                prepend('\n', json_unescape(rest2))
            } else if e == 'r' {
                prepend('\r', json_unescape(rest2))
            } else if e == 't' {
                prepend('\t', json_unescape(rest2))
            } else if e == 'u' && s.len() >= 6 && hex_value(s[2]) is Some && hex_value(s[3]) is Some
                && hex_value(s[4]) is Some && hex_value(s[5]) is Some {
                let v = hex_value(s[2])->Some_0 * 4096 + hex_value(s[3])->Some_0 * 256 + hex_value(s[4])->Some_0
                    * 16 + hex_value(s[5])->Some_0;
                if v < 0xD800 {
                    prepend((v as u32) as char, json_unescape(s.subrange(6, s.len() as int)))
                } else {
                    None
                }
            } else {
                None
            }
        }
    } else if s[0] == '"' || (s[0] as u32) < 0x20 {
        None
    } else {
        prepend(s[0], json_unescape(s.subrange(1, s.len() as int)))
    }
}

proof fn lemma_hex_char(d: nat)
    requires
        d < 16,
    ensures
        hex_value(hex_char(d)) == Some(d),
{
}

/// The escape of one character reads back as that character.
proof fn lemma_escape_char_reads_back(c: char, t: Seq<char>)
    ensures
        json_unescape(json_escape_char(c) + t) == prepend(c, json_unescape(t)),
{
    let s = json_escape_char(c) + t;
    if c == '"' || c == '\\' || c == '\n' || c == '\r' || c == '\t' {
        assert(s.subrange(2, s.len() as int) =~= t);
    } else if (c as u32) < 0x20 {
        let u = c as u32;
        lemma_hex_char((u / 16) as nat);
        lemma_hex_char((u % 16) as nat);
        assert(s[2] == '0');
        assert(s[3] == '0');
        assert(s[4] == hex_char((u / 16) as nat));
        assert(s[5] == hex_char((u % 16) as nat));
        assert(s.subrange(6, s.len() as int) =~= t);
        let v = 0 * 4096 + 0 * 256 + (u / 16) as nat * 16 + (u % 16) as nat;
        assert(v == u as nat);
        assert(((v as u32) as char) == c);
    } else {
        assert(s.subrange(1, s.len() as int) =~= t);
    }
}

/// Escaping `s` in front of `t` reads back as `s` in front of what `t`
/// reads back as.
proof fn lemma_escape_reads_back(s: Seq<char>, t: Seq<char>)
    ensures
        json_unescape(json_escape(s) + t) == match json_unescape(t) {
            Some(r) => Some(s + r),
            None => None::<Seq<char>>,
        },
    decreases s.len(),
{
    if s.len() == 0 {
        assert(json_escape(s) + t =~= t);
        if let Some(r) = json_unescape(t) {
            assert(s + r =~= r);
        }
    } else {
        let c = s.last();
        let s0 = s.drop_last();
        lemma_escape_reads_back(s0, json_escape_char(c) + t);
        lemma_escape_char_reads_back(c, t);
        assert(json_escape(s) + t =~= json_escape(s0) + (json_escape_char(c) + t));
        if let Some(r) = json_unescape(t) {
            assert(s0 + (seq![c] + r) =~= s + r);
        }
    }
}

/// A JSON string literal reads back as the text it was written for: it
/// starts and ends with a quote, and its inside, read as a JSON reader
/// does, is exactly the text.
pub proof fn law_json_string_reads_back(s: Seq<char>)
    ensures
        json_str(s)[0] == '"',
        json_str(s).last() == '"',
        json_unescape(json_str(s).subrange(1, json_str(s).len() - 1)) == Some(s),
{
    lemma_escape_reads_back(s, Seq::<char>::empty());
    assert(json_escape(s) + Seq::<char>::empty() =~= json_escape(s));
    assert(json_str(s).subrange(1, json_str(s).len() - 1) =~= json_escape(s));
    assert(s + Seq::<char>::empty() =~= s);
}

} // verus!
