//! JSON text: the checks and the quoting that the library needs from the
//! JSON parser, and the whitespace test that decides when a tool call's
//! arguments are left out.
use vstd::prelude::*;

verus! {

/// The JSON library's error.
#[verifier::external_type_specification]
#[verifier::external_body]
pub struct ExJsonError(serde_json::Error);

/// The compact text that the JSON library gives for the JSON value held
/// in `text`, or none where `text` is not JSON.
pub uninterp spec fn json_normalized(text: Seq<char>) -> Option<Seq<char>>;

/// The hexadecimal digit `d`, in lower case.
pub open spec fn hex_digit(d: nat) -> char {
    if d < 10 {
        ((48 + d) as u32) as char
    } else {
        ((87 + d) as u32) as char
    }
}

/// How a character stands inside a JSON string literal: a quote, a
/// backslash and the control characters are escaped, with the short
/// escapes where JSON has them and `\u00xx` otherwise; every other
/// character stands for itself.
pub open spec fn json_escaped_char(c: char) -> Seq<char> {
    let u = c as u32;
    if c == '"' {
        seq!['\\', '"']
    } else if c == '\\' {
        seq!['\\', '\\']
    } else if u == 0x08 {
        seq!['\\', 'b']
    } else if u == 0x09 {
        seq!['\\', 't']
    } else if u == 0x0a {
        seq!['\\', 'n']
    } else if u == 0x0c {
        seq!['\\', 'f']
    } else if u == 0x0d {
        seq!['\\', 'r']
    } else if u < 0x20 {
        seq!['\\', 'u', '0', '0', hex_digit((u / 16) as nat), hex_digit((u % 16) as nat)]
    } else {
        seq![c]
    }
}

/// The characters of `s`, each as it stands inside a JSON string literal.
pub open spec fn json_escaped(s: Seq<char>) -> Seq<char>
    decreases s.len(),
{
    if s.len() == 0 {
        Seq::empty()
    } else {
        json_escaped(s.drop_last()) + json_escaped_char(s.last())
    }
}

/// The JSON string literal for `s`: its escaped characters in quotes.
pub open spec fn json_string_literal(s: Seq<char>) -> Seq<char> {
    seq!['"'] + json_escaped(s) + seq!['"']
}

/// Whether `c` stands for itself inside a JSON string literal: it is
/// neither a quote, nor a backslash, nor a control character.
pub open spec fn json_plain_char(c: char) -> bool {
    c != '"' && c != '\\' && c as u32 >= 0x20
}

/// The JSON string literal of a text is that text between quotes, each
/// character of it escaped on its own, in order: the literal of `a + b` is
/// the escapes of `a` followed by those of `b`, and a text whose characters
/// all stand for themselves keeps every one of them, whatever its length.
pub proof fn lemma_json_literal_of_text(a: Seq<char>, b: Seq<char>)
    ensures
        json_escaped(a + b) == json_escaped(a) + json_escaped(b),
        (forall|i: int| 0 <= i < a.len() ==> json_plain_char(#[trigger] a[i]))
            ==> json_string_literal(a) == seq!['"'] + a + seq!['"'],
    decreases b.len(),
{
    if b.len() > 0 {
        lemma_json_literal_of_text(a, b.drop_last());
        assert((a + b).drop_last() =~= a + b.drop_last());
        assert((a + b).last() == b.last());
        assert(json_escaped(b) == json_escaped(b.drop_last()) + json_escaped_char(b.last()));
        assert(json_escaped(a + b) =~= json_escaped(a) + json_escaped(b));
    } else {
        assert(a + b =~= a);
        assert(json_escaped(a) + json_escaped(b) =~= json_escaped(a));
    }
    if forall|i: int| 0 <= i < a.len() ==> json_plain_char(#[trigger] a[i]) {
        lemma_plain_text_escapes_to_itself(a);
    }
}

/// A text whose characters all stand for themselves escapes to itself.
proof fn lemma_plain_text_escapes_to_itself(a: Seq<char>)
    requires
        forall|i: int| 0 <= i < a.len() ==> json_plain_char(#[trigger] a[i]),
    ensures
        json_escaped(a) == a,
    decreases a.len(),
{
    if a.len() > 0 {
        assert(json_plain_char(a[a.len() - 1]));
        lemma_plain_text_escapes_to_itself(a.drop_last());
        assert(json_escaped_char(a.last()) =~= seq![a.last()]);
        assert(a.drop_last() + seq![a.last()] =~= a);
    }
}

/// Calls `serde_json::from_str` to read `text` as a JSON value, and gives
/// back that value's compact text. What it gives is named
/// `json_normalized`; it fails exactly where that name gives none.
#[verifier::external_body]
pub(crate) fn normalize_json(text: &str) -> (r: Result<String, serde_json::Error>)
    ensures
        r is Ok <==> json_normalized(text@) is Some,
        r matches Ok(s) ==> s@ == json_normalized(text@)->0,
{
    serde_json::from_str::<serde_json::Value>(text).map(|value| value.to_string())
}

/// Calls `serde_json::to_string` on a string: the JSON string literal for
/// `s`, with the escapes that library writes (`json_escaped_char`).
/// Writing a string into memory does not fail in that library; the empty
/// string stands for that case.
#[verifier::external_body]
pub(crate) fn quote_json_string(s: &str) -> (r: String)
    ensures
        r@ == json_string_literal(s@),
{
    match serde_json::to_string(s) {
        Ok(text) => text,
        Err(_) => String::new(),
    }
}

/// Whether `c` has the Unicode `White_Space` property.
pub open spec fn is_unicode_whitespace(c: char) -> bool {
    let u = c as u32;
    ||| 0x09 <= u <= 0x0d
    ||| u == 0x20
    ||| u == 0x85
    ||| u == 0xa0
    ||| u == 0x1680
    ||| 0x2000 <= u <= 0x200a
    ||| u == 0x2028
    ||| u == 0x2029
    ||| u == 0x202f
    ||| u == 0x205f
    ||| u == 0x3000
}

/// Whether `s` is empty once leading and trailing whitespace is trimmed:
/// every character of it is whitespace.
pub open spec fn spec_is_blank(s: Seq<char>) -> bool {
    forall|i: int| 0 <= i < s.len() ==> is_unicode_whitespace(#[trigger] s[i])
}

/// Whether `c` has the Unicode `White_Space` property.
pub fn is_whitespace(c: char) -> (b: bool)
    ensures
        b == is_unicode_whitespace(c),
{
    let u = c as u32;
    (0x09 <= u && u <= 0x0d) || u == 0x20 || u == 0x85 || u == 0xa0 || u == 0x1680 || (0x2000
        <= u && u <= 0x200a) || u == 0x2028 || u == 0x2029 || u == 0x202f || u == 0x205f || u
        == 0x3000
}

/// Whether `s` is empty once leading and trailing whitespace is trimmed.
pub fn is_blank(s: &str) -> (b: bool)
    ensures
        b == spec_is_blank(s@),
{
    let ghost text = s@;
    for c in it: s.chars()
        invariant
            it.seq() == text,
            text == s@,
            forall|i: int| 0 <= i < it.index() ==> is_unicode_whitespace(#[trigger] text[i]),
    {
        if !is_whitespace(c) {
            assert(text[it.index() as int] == c);
            return false;
        }
    }
    true
}

} // verus!
