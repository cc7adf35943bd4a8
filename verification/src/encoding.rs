//! Calls into `serde_json` and the standard library that turn bytes and texts into other texts.
//! What is stated here of the called functions is not proved.

use vstd::prelude::*;
use vstd::utf8::*;

verus! {

/// The hexadecimal digit, in lower case, of a number below sixteen.
pub open spec fn hex_digit(n: int) -> char {
    if n < 10 {
        (('0' as u32) + n) as char
    } else {
        (('a' as u32) + n - 10) as char
    }
}

/// One character inside a JSON string: the quote, the backslash and the control characters are
/// escaped, every other character stands for itself.
pub open spec fn json_escaped(c: char) -> Seq<char> {
    let n = c as u32 as int;
    if c == '"' || c == '\\' {
        seq!['\\', c]
    } else if n == 0x08 {
        seq!['\\', 'b']
    } else if n == 0x09 {
        seq!['\\', 't']
    } else if n == 0x0a {
        seq!['\\', 'n']
    } else if n == 0x0c {
        seq!['\\', 'f']
    } else if n == 0x0d {
        seq!['\\', 'r']
    } else if n < 0x20 {
        seq!['\\', 'u', '0', '0', hex_digit(n / 16), hex_digit(n % 16)]
    } else {
        seq![c]
    }
}

/// The characters of `text` as they stand inside a JSON string.
pub open spec fn json_contents(text: Seq<char>) -> Seq<char>
    decreases text.len(),
{
    if text.len() == 0 {
        Seq::empty()
    } else {
        json_contents(text.drop_last()) + json_escaped(text.last())
    }
}

/// `text` as a JSON string, with its quotes.
pub open spec fn json_quoted(text: Seq<char>) -> Seq<char> {
    seq!['"'] + json_contents(text) + seq!['"']
}

/// `serde_json::to_string` on a string: the string in quotes, each of its characters escaped
/// where JSON asks for it. Writing into memory does not fail, so there is always a result.
#[verifier::external_body]
pub(crate) fn json_string(text: &str) -> (quoted: String)
    ensures
        quoted@ == json_quoted(text@),
{
    serde_json::to_string(text).expect("a string is written to memory")
}

/// What `format!` gives for a string under `{:?}`.
pub uninterp spec fn debug_text(text: Seq<char>) -> Seq<char>;

/// `format!` with `{:?}` on a string: its result depends on the characters of the string alone.
#[verifier::external_body]
pub(crate) fn text_for_debug(text: &str) -> (shown: String)
    ensures
        shown@ == debug_text(text@),
{
    format!("{:?}", text)
}

/// What `format!` gives for a path under `{:?}`.
pub uninterp spec fn debug_path(text: Seq<char>) -> Seq<char>;

/// `format!` with `{:?}` on a path, given as a text: its result depends on the characters of that
/// text alone. (A path escapes other characters than a string does.)
#[verifier::external_body]
pub(crate) fn path_for_debug(text: &str) -> (shown: String)
    ensures
        shown@ == debug_path(text@),
{
    format!("{:?}", std::path::Path::new(text))
}

/// `String::from_utf8`: the text that the bytes encode, where they are valid UTF-8.
#[verifier::external_body]
pub(crate) fn utf8_text(bytes: Vec<u8>) -> (text: Option<String>)
    ensures
        text is Some <==> valid_utf8(bytes@),
        text is Some ==> text->0@ == decode_utf8(bytes@),
{
    String::from_utf8(bytes).ok()
}

/// What `String::from_utf8_lossy` gives for bytes.
pub uninterp spec fn lossy_utf8(bytes: Seq<u8>) -> Seq<char>;

/// `String::from_utf8_lossy`: a text that depends on the bytes alone, and is the encoded text
/// where they are valid UTF-8.
#[verifier::external_body]
pub(crate) fn lossy_text(bytes: &Vec<u8>) -> (text: String)
    ensures
        text@ == lossy_utf8(bytes@),
        valid_utf8(bytes@) ==> text@ == decode_utf8(bytes@),
{
    String::from_utf8_lossy(bytes).into_owned()
}

} // verus!
