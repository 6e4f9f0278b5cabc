//! JSON text of plain values, as `serde_json` writes it.
use vstd::prelude::*;

use crate::text::{join_text, strings};

verus! {

/// The error that `serde_json` reports.
#[verifier::external_type_specification]
#[verifier::external_body]
pub struct ExJsonError(serde_json::Error);

/// The hexadecimal digit of a number below sixteen.
pub open spec fn hex_digit(n: int) -> char {
    if n < 10 {
        (48 + n) as char
    } else {
        (87 + n) as char
    }
}

/// A character inside a JSON string. Quotes, backslashes and control characters are escaped; any
/// other character stands for itself.
pub open spec fn escaped(c: char) -> Seq<char> {
    let n = c as int;
    if c == '"' || c == '\\' {
        seq!['\\', c]
    } else if n == 0x08 {
        seq!['\\', 'b']
    } else if n == 0x09 {
        seq!['\\', 't']
    } else if n == 0x0a {
        seq!['\\', 'n']
    } else if n == 0x0c {
        seq!['\\', 'f']
    } else if n == 0x0d {
        seq!['\\', 'r']
    } else if n < 0x20 {
        seq!['\\', 'u', '0', '0', hex_digit(n / 16), hex_digit(n % 16)]
    } else {
        seq![c]
    }
}

/// A text inside a JSON string.
pub open spec fn escaped_text(text: Seq<char>) -> Seq<char>
    decreases text.len(),
{
    if text.len() == 0 {
        Seq::empty()
    } else {
        escaped_text(text.drop_last()) + escaped(text.last())
    }
}

/// The JSON string for a text.
pub open spec fn json_string(text: Seq<char>) -> Seq<char> {
    seq!['"'] + escaped_text(text) + seq!['"']
}

/// `serde_json::to_string` on a string. It always succeeds with the JSON string for the text.
#[verifier::external_body]
pub(crate) fn string_to_json(text: &str) -> (r: Result<String, serde_json::Error>)
    ensures
        r is Ok,
        r->Ok_0@ == json_string(text@),
{
    serde_json::to_string(text)
}

/// The JSON array of strings: the JSON strings, with commas between them, in square brackets.
pub open spec fn json_array(texts: Seq<Seq<char>>) -> Seq<char> {
    seq!['['] + join_text(Seq::new(texts.len(), |i: int| json_string(texts[i])), seq![',']) + seq![
        ']',
    ]
}

/// `serde_json::to_string` on a list of strings. It always succeeds with the array of the JSON
/// strings.
#[verifier::external_body]
pub(crate) fn strings_to_json(list: &Vec<String>) -> (r: Result<String, serde_json::Error>)
    ensures
        r is Ok,
        r->Ok_0@ == json_array(strings(list@)),
{
    serde_json::to_string(list)
}

/// Whether a character stands for itself inside a JSON string.
pub open spec fn plain(c: char) -> bool {
    c as int >= 0x20 && c != '"' && c != '\\'
}

/// A text of plain characters stands for itself inside a JSON string.
pub proof fn plain_text_is_not_escaped(text: Seq<char>)
    requires
        forall|i: int| 0 <= i < text.len() ==> plain(#[trigger] text[i]),
    ensures
        json_string(text) == seq!['"'] + text + seq!['"'],
{
    lemma_plain(text);
}

proof fn lemma_plain(text: Seq<char>)
    requires
        forall|i: int| 0 <= i < text.len() ==> plain(#[trigger] text[i]),
    ensures
        escaped_text(text) == text,
    decreases text.len(),
{
    if text.len() > 0 {
        let front = text.drop_last();
        assert forall|i: int| 0 <= i < front.len() implies plain(#[trigger] front[i]) by {
            assert(front[i] == text[i]);
        }
        lemma_plain(front);
        assert(plain(text[text.len() - 1]));
        assert(front + seq![text.last()] =~= text);
    } else {
        assert(text =~= Seq::empty());
    }
}

} // verus!
