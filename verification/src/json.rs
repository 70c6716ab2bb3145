//! JSON text written by `serde_json`, for the documents the library frames
//! itself: request bodies and event metadata.
use vstd::prelude::*;
use crate::text::{string_from, append_str, string_views};

verus! {

/// A lower-case hexadecimal digit.
pub open spec fn hex_digit(n: u32) -> char {
    if n < 10 {
        (48 + n) as char
    } else {
        (87 + n) as char
    }
}

/// How `serde_json` writes one character inside a string: `"` and `\` and
/// the controls backspace, tab, line feed, form feed and carriage return
/// get a two-character escape, other characters below U+0020 become
/// `\u00` and two lower-case hex digits, and every other character stays.
pub open spec fn json_char_escape(c: char) -> Seq<char> {
    let n = c as u32;
    if c == '"' {
        seq!['\\', '"']
    } else if c == '\\' {
        seq!['\\', '\\']
    } else if n == 8 {
        seq!['\\', 'b']
    } else if n == 9 {
        seq!['\\', 't']
    } else if n == 10 {
        seq!['\\', 'n']
    } else if n == 12 {
        seq!['\\', 'f']
    } else if n == 13 {
        seq!['\\', 'r']
    } else if n < 32 {
        seq!['\\', 'u', '0', '0', hex_digit(n / 16), hex_digit(n % 16)]
    } else {
        seq![c]
    }
}

/// The escaped contents of a JSON string holding `s`.
pub open spec fn json_escaped(s: Seq<char>) -> Seq<char>
    decreases s.len(),
{
    if s.len() == 0 {
        Seq::empty()
    } else {
        json_escaped(s.drop_last()) + json_char_escape(s.last())
    }
}

/// What `serde_json` writes for a JSON string holding `s`: the escaped
/// contents between double quotes.
pub open spec fn json_string_literal(s: Seq<char>) -> Seq<char> {
    "\""@ + json_escaped(s) + "\""@
}

/// `serde_json::Value::String(s).to_string()`: `s` as a quoted JSON string,
/// escaped as `format_escaped_str` in serde_json's serializer does.
#[verifier::external_body]
pub(crate) fn json_string(s: &str) -> (r: String)
    ensures
        r@ == json_string_literal(s@),
{
    serde_json::Value::String(s.to_owned()).to_string()
}

/// The JSON array of the strings `items`, compact, in order.
pub open spec fn json_string_array(items: Seq<Seq<char>>) -> Seq<char> {
    "["@ + json_string_items(items) + "]"@
}

/// The elements of a JSON array of strings, separated by commas.
pub open spec fn json_string_items(items: Seq<Seq<char>>) -> Seq<char>
    decreases items.len(),
{
    if items.len() == 0 {
        Seq::empty()
    } else if items.len() == 1 {
        json_string_literal(items[0])
    } else {
        json_string_items(items.drop_last()) + ","@ + json_string_literal(items.last())
    }
}

/// Writes the JSON array of the strings `items`.
pub fn json_array_of_strings(items: &Vec<String>) -> (r: String)
    ensures
        r@ == json_string_array(string_views(items@)),
{
    let ghost views = string_views(items@);
    let mut out = string_from("[");
    let mut i: usize = 0;
    while i < items.len()
        invariant
            views == string_views(items@),
            i <= items@.len(),
            out@ == "["@ + json_string_items(views.take(i as int)),
        decreases items@.len() - i,
    {
        let ghost before = out@;
        if i > 0 {
            append_str(&mut out, ",");
        }
        let item = json_string(items[i].as_str());
        append_str(&mut out, item.as_str());
        proof {
            let t = views.take(i as int + 1);
            assert(t.drop_last() =~= views.take(i as int));
            assert(t.last() == views[i as int]);
            if i == 0 {
                assert(json_string_items(views.take(0)) =~= Seq::<char>::empty());
                assert(out@ =~= "["@ + json_string_items(t));
            } else {
                assert(out@ =~= "["@ + json_string_items(t));
            }
        }
        i = i + 1;
    }
    assert(views.take(items@.len() as int) =~= views);
    append_str(&mut out, "]");
    out
}

} // verus!
