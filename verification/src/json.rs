//! JSON text as the gateway handles it.
//!
//! Structured values never enter the verified code as trees: a payload is
//! either a bare string or the JSON text of a value. The two operations that
//! need a JSON reader or writer are delegated to `serde_json`. What the
//! reader makes of a text goes by the name [`json_compact`]; what the writer
//! makes of a string is spelled out as [`json_quote`].

use vstd::prelude::*;

verus! {

/// The error type of `serde_json`.
#[verifier::external_type_specification]
#[verifier::external_body]
pub struct ExJsonError(serde_json::Error);

/// What `serde_json` makes of `text` read as one JSON document: the compact
/// encoding of the value it denotes, or `None` where `text` is no JSON
/// document.
pub uninterp spec fn json_compact(text: Seq<char>) -> Option<Seq<char>>;

/// One of the sixteen digits, in lower case, of a number written to base 16.
pub open spec fn hex_char(d: int) -> char
    recommends
        0 <= d < 16,
{
    if d == 0 {
        '0'
    } else if d == 1 {
        '1'
    } else if d == 2 {
        '2'
    } else if d == 3 {
        '3'
    } else if d == 4 {
        '4'
    } else if d == 5 {
        '5'
    } else if d == 6 {
        '6'
    } else if d == 7 {
        '7'
    } else if d == 8 {
        '8'
    } else if d == 9 {
        '9'
    } else if d == 10 {
        'a'
    } else if d == 11 {
        'b'
    } else if d == 12 {
        'c'
    } else if d == 13 {
        'd'
    } else if d == 14 {
        'e'
    } else {
        'f'
    }
}

/// How one character stands inside a JSON string literal: the quote, the
/// backslash and five control characters as a backslash and a letter, the
/// other characters below the space as `\u00` and two digits, and every other
/// character as itself.
pub open spec fn json_escape(c: char) -> Seq<char> {
    if c == '"' {
        seq!['\\', '"']
    } else if c == '\\' {
        seq!['\\', '\\']
    } else if c == '\u{8}' {
        seq!['\\', 'b']
    } else if c == '\t' {
        seq!['\\', 't']
    } else if c == '\n' {
        seq!['\\', 'n']
    } else if c == '\u{c}' {
        seq!['\\', 'f']
    } else if c == '\r' {
        seq!['\\', 'r']
    } else if (c as int) < 0x20 {
        seq!['\\', 'u', '0', '0', hex_char((c as int) / 16), hex_char((c as int) % 16)]
    } else {
        seq![c]
    }
}

/// The characters of `text`, each as it stands inside a JSON string literal.
pub open spec fn json_escaped(text: Seq<char>) -> Seq<char>
    decreases text.len(),
{
    if text.len() == 0 {
        Seq::empty()
    } else {
        json_escaped(text.drop_last()) + json_escape(text.last())
    }
}

/// The JSON string literal for a string with the content `text`: a quote, the
/// content with each character escaped where JSON asks for it, and a quote.
pub open spec fn json_quote(text: Seq<char>) -> Seq<char> {
    seq!['"'] + json_escaped(text) + seq!['"']
}

/// Whether a character stands for itself inside a JSON string literal.
pub open spec fn plain(c: char) -> bool {
    c != '"' && c != '\\' && (c as int) >= 0x20
}

/// A text of plain characters is quoted as it is: the literal is the text
/// between two quotes.
pub proof fn lemma_plain_text_quoted(text: Seq<char>)
    requires
        forall|i: int| 0 <= i < text.len() ==> plain(#[trigger] text[i]),
    ensures
        json_quote(text) == seq!['"'] + text + seq!['"'],
{
    lemma_plain_text_escaped(text);
}

/// A text of plain characters needs no escape.
pub proof fn lemma_plain_text_escaped(text: Seq<char>)
    requires
        forall|i: int| 0 <= i < text.len() ==> plain(#[trigger] text[i]),
    ensures
        json_escaped(text) == text,
    decreases text.len(),
{
    if text.len() > 0 {
        let front = text.drop_last();
        assert forall|i: int| 0 <= i < front.len() implies plain(#[trigger] front[i]) by {
            assert(front[i] == text[i]);
        }
        lemma_plain_text_escaped(front);
        assert(plain(text[text.len() - 1]));
        assert(json_escape(text.last()) =~= seq![text.last()]);
        assert(front + seq![text.last()] =~= text);
    }
}

/// Calls `serde_json::from_str` at the type `serde_json::Value` and prints the
/// value it returns with `serde_json::to_string`.
///
/// Assumed, not proved: the outcome is a function of `text` alone, named
/// [`json_compact`]. `None` stands for either call returning an error.
#[verifier::external_body]
pub(crate) fn compact(text: &str) -> (out: Option<String>)
    ensures
        match out {
            Some(t) => json_compact(text@) == Some(t@),
            None => json_compact(text@) is None,
        },
{
    match serde_json::from_str::<serde_json::Value>(text) {
        Ok(value) => serde_json::to_string(&value).ok(),
        Err(_) => None,
    }
}

/// Calls `serde_json::to_string` on a `str`.
///
/// Assumed, not proved: the call succeeds, and its output is the string
/// literal that [`json_quote`] spells out. `serde_json` names two causes of
/// failure, a value whose own serialisation fails and a map with a key that
/// is no string; a `str` is neither, and it is written into memory. The
/// escapes are those of its table of escapes: it writes a quote, each
/// character as itself or as its escape, and a quote.
#[verifier::external_body]
pub(crate) fn quote(text: &str) -> (out: Result<String, serde_json::Error>)
    ensures
        out is Ok,
        out matches Ok(t) ==> t@ == json_quote(text@),
{
    serde_json::to_string(text)
}

/// The data of an envelope.
#[derive(Debug, PartialEq, Eq)]
pub enum Payload {
    /// A bare string, as a producer handed it over.
    Text(String),
    /// Any JSON value, held as its JSON text.
    Encoded(String),
}

/// The mathematical content of a [`Payload`].
pub enum PayloadView {
    Text(Seq<char>),
    Encoded(Seq<char>),
}

impl View for Payload {
    type V = PayloadView;

    open spec fn view(&self) -> PayloadView {
        match self {
            Payload::Text(s) => PayloadView::Text(s@),
            Payload::Encoded(t) => PayloadView::Encoded(t@),
        }
    }
}

} // verus!
