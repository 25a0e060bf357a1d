//! The JSON text of an object with one member whose value is a string, as
//! the responses that report a failure carry it.

use crate::seqs::join_map;
use vstd::prelude::*;

verus! {

/// The lower-case hexadecimal digit that stands for `d`, for `d` below
/// sixteen.
pub open spec fn hex_digit(d: nat) -> char
    recommends
        d < 16,
{
    seq!['0', '1', '2', '3', '4', '5', '6', '7', '8', '9', 'a', 'b', 'c', 'd', 'e', 'f'][d as int]
}

/// The characters that cannot stand for themselves inside a JSON string:
/// the double quote, the backslash, and the control characters below the
/// space.
pub open spec fn needs_escape(c: char) -> bool {
    c == '"' || c == '\\' || (c as u32) < 0x20
}

/// What stands for one character inside a JSON string. The double quote and
/// the backslash get a backslash before them; backspace, tab, line feed,
/// form feed and carriage return get their short forms; the other control
/// characters are written as `\u00` and two hexadecimal digits; every other
/// character stands for itself.
pub open spec fn json_escape(c: char) -> Seq<char> {
    let u = c as u32;
    if c == '"' {
        seq!['\\', '"']
    } else if c == '\\' {
        seq!['\\', '\\']
    } else if u == 0x08 {
        seq!['\\', 'b']
    } else if u == 0x09 {
        seq!['\\', 't']
    } else if u == 0x0A {
        seq!['\\', 'n']
    } else if u == 0x0C {
        seq!['\\', 'f']
    } else if u == 0x0D {
        seq!['\\', 'r']
    } else if u < 0x20 {
        seq!['\\', 'u', '0', '0', hex_digit((u / 16) as nat), hex_digit((u % 16) as nat)]
    } else {
        seq![c]
    }
}

/// A text as a JSON string: between double quotes, each character as
/// `json_escape` gives it.
pub open spec fn json_string(s: Seq<char>) -> Seq<char> {
    seq!['"'] + join_map(s, |c: char| json_escape(c)) + seq!['"']
}

/// The JSON text of the object with the single member `key`, whose value is
/// the string `value`: no blanks, the key and the value as JSON strings.
pub open spec fn json_object_text(key: Seq<char>, value: Seq<char>) -> Seq<char> {
    seq!['{'] + json_string(key) + seq![':'] + json_string(value) + seq!['}']
}

/// A text without characters that need an escape stands between the quotes
/// as it is.
pub proof fn lemma_json_plain(s: Seq<char>)
    requires
        forall|i: int| 0 <= i < s.len() ==> !needs_escape(#[trigger] s[i]),
    ensures
        join_map(s, |c: char| json_escape(c)) == s,
        json_string(s) == seq!['"'] + s + seq!['"'],
    decreases s.len(),
{
    if s.len() > 0 {
        let front = s.drop_last();
        assert forall|i: int| 0 <= i < front.len() implies !needs_escape(#[trigger] front[i]) by {
            assert(front[i] == s[i]);
        }
        lemma_json_plain(front);
        assert(!needs_escape(s[s.len() - 1]));
        assert(front + seq![s.last()] =~= s);
    } else {
        assert(join_map(s, |c: char| json_escape(c)) =~= s);
    }
}

/// Whatever the value, the text is an object whose one member goes by the
/// key: it opens with the key as a JSON string and a colon, and the value
/// follows as a JSON string.
pub proof fn lemma_json_object_member(key: Seq<char>, value: Seq<char>)
    requires
        forall|i: int| 0 <= i < key.len() ==> !needs_escape(#[trigger] key[i]),
    ensures
        json_object_text(key, value) == seq!['{', '"'] + key + seq!['"', ':'] + json_string(value)
            + seq!['}'],
{
    lemma_json_plain(key);
    assert(json_object_text(key, value) =~= seq!['{', '"'] + key + seq!['"', ':'] + json_string(
        value,
    ) + seq!['}']);
}

} // verus!
