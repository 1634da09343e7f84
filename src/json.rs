//! Compact JSON text for module snapshots: objects of members, arrays of
//! values, strings encoded by serde_json.
use vstd::prelude::*;

verus! {

/// A lowercase hexadecimal digit.
pub open spec fn hex_digit(d: u32) -> char {
    if d < 10 {
        ((d + 0x30) as u8) as char
    } else {
        ((d - 10 + 0x61) as u8) as char
    }
}

/// How a string encoded as JSON writes character `c`: `"` and `\` behind
/// a backslash; backspace, tab, line feed, form feed and carriage return as
/// `\b`, `\t`, `\n`, `\f`, `\r`; any other control character below 0x20 as
/// `\u00` and two lowercase hexadecimal digits; anything else as itself.
pub open spec fn escape_char(c: char) -> Seq<char> {
    if c == '"' {
        seq!['\\', '"']
    } else if c == '\\' {
        seq!['\\', '\\']
    } else if c == '\u{8}' {
        seq!['\\', 'b']
    } else if c == '\t' {
        seq!['\\', 't']
    } else if c == '\n' {
        seq!['\\', 'n']
    } else if c == '\u{c}' {
        seq!['\\', 'f']
    } else if c == '\r' {
        seq!['\\', 'r']
    } else if (c as u32) < 0x20 {
        seq!['\\', 'u', '0', '0', hex_digit((c as u32) / 16), hex_digit((c as u32) % 16)]
    } else {
        seq![c]
    }
}

/// Every character of `s` escaped, in order.
pub open spec fn escape_all(s: Seq<char>) -> Seq<char>
    decreases s.len(),
{
    if s.len() == 0 {
        Seq::empty()
    } else {
        escape_all(s.drop_last()) + escape_char(s.last())
    }
}

/// The JSON text of a string: its escaped characters between double quotes.
pub open spec fn json_string(s: Seq<char>) -> Seq<char> {
    seq!['"'] + escape_all(s) + seq!['"']
}

/// Relies on `serde_json::to_string` applied to a string: the encoding that
/// `json_string` states.
#[verifier::external_body]
fn json_quote(s: &str) -> (r: String)
    ensures
        r@ == json_string(s@),
{
    serde_json::to_string(s).unwrap_or_default()
}

/// `items` separated by commas.
pub open spec fn join(items: Seq<Seq<char>>) -> Seq<char>
    decreases items.len(),
{
    if items.len() == 0 {
        Seq::empty()
    } else if items.len() == 1 {
        items[0]
    } else {
        join(items.drop_last()) + seq![','] + items.last()
    }
}

/// A JSON object with the given members, written `key:value`.
pub open spec fn json_object(members: Seq<Seq<char>>) -> Seq<char> {
    seq!['{'] + join(members) + seq!['}']
}

/// A JSON array with the given values.
pub open spec fn json_array(items: Seq<Seq<char>>) -> Seq<char> {
    seq!['['] + join(items) + seq![']']
}

/// A member of a JSON object: the encoded key, a colon, the value's text.
pub open spec fn json_member(key: Seq<char>, raw: Seq<char>) -> Seq<char> {
    json_string(key) + seq![':'] + raw
}

/// The views of a list of strings.
pub open spec fn views(v: Seq<String>) -> Seq<Seq<char>> {
    v.map_values(|s: String| s@)
}

/// `items` separated by commas, between `open` and `close`.
fn join_between(items: &Vec<String>, open: &str, close: &str) -> (r: String)
    ensures
        r@ == open@ + join(views(items@)) + close@,
{
    let comma = ",";
    proof {
        reveal_strlit(",");
    }
    let mut out = String::new();
    let mut i: usize = 0;
    while i < items.len()
        invariant
            i <= items@.len(),
            comma@ == seq![','],
            out@ == join(views(items@.take(i as int))),
        decreases items@.len() - i,
    {
        proof {
            assert(views(items@.take(i + 1)).drop_last() =~= views(items@.take(i as int)));
            assert(views(items@.take(i + 1)).last() == items@[i as int]@);
        }
        if i > 0 {
            out.append(comma);
        }
        out.append(items[i].as_str());
        proof {
            if i == 0 {
                assert(out@ =~= join(views(items@.take(i + 1))));
            } else {
                assert(out@ =~= join(views(items@.take(i + 1))));
            }
        }
        i = i + 1;
    }
    proof {
        assert(items@.take(i as int) =~= items@);
    }
    let mut r = String::from_str(open);
    r.append(out.as_str());
    r.append(close);
    proof {
        assert(r@ =~= open@ + join(views(items@)) + close@);
    }
    r
}

/// The JSON object with the given members.
pub fn object(members: &Vec<String>) -> (r: String)
    ensures
        r@ == json_object(views(members@)),
{
    let open = "{";
    let close = "}";
    proof {
        reveal_strlit("{");
        reveal_strlit("}");
    }
    join_between(members, open, close)
}

/// The JSON array with the given values.
pub fn array(items: &Vec<String>) -> (r: String)
    ensures
        r@ == json_array(views(items@)),
{
    let open = "[";
    let close = "]";
    proof {
        reveal_strlit("[");
        reveal_strlit("]");
    }
    join_between(items, open, close)
}

/// The member `key:raw`, where `raw` is JSON text already.
pub fn member(key: &str, raw: &str) -> (r: String)
    ensures
        r@ == json_member(key@, raw@),
{
    let colon = ":";
    proof {
        reveal_strlit(":");
    }
    let mut r = json_quote(key);
    r.append(colon);
    r.append(raw);
    proof {
        assert(r@ =~= json_member(key@, raw@));
    }
    r
}

/// The member `key:"value"`, the value encoded as a JSON string.
pub fn string_member(key: &str, value: &str) -> (r: String)
    ensures
        r@ == json_member(key@, json_string(value@)),
{
    let v = json_quote(value);
    member(key, v.as_str())
}

} // verus!
