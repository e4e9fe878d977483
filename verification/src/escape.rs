//! The three escaping disciplines used when event payloads cross into
//! markup: body text, quoted attribute values, and URLs. Each is a pure
//! function of its input; the first two are specified exactly, the URL
//! form is named.
use vstd::prelude::*;

verus! {

/// What one character contributes to escaped HTML body text: the three
/// characters that are unsafe between tags become entities, everything
/// else stays.
pub open spec fn body_escape_char(c: char) -> Seq<char> {
    if c == '&' {
        seq!['&', 'a', 'm', 'p', ';']
    } else if c == '<' {
        seq!['&', 'l', 't', ';']
    } else if c == '>' {
        seq!['&', 'g', 't', ';']
    } else {
        seq![c]
    }
}

/// HTML body-text escaping of a whole string, character by character.
pub open spec fn body_escaped(s: Seq<char>) -> Seq<char>
    decreases s.len(),
{
    if s.len() == 0 {
        Seq::empty()
    } else {
        body_escape_char(s[0]) + body_escaped(s.drop_first())
    }
}

/// What one character contributes to an escaped attribute value: a
/// superset of the body discipline that also covers both quote
/// characters.
pub open spec fn attr_escape_char(c: char) -> Seq<char> {
    if c == '&' {
        seq!['&', 'a', 'm', 'p', ';']
    } else if c == '<' {
        seq!['&', 'l', 't', ';']
    } else if c == '>' {
        seq!['&', 'g', 't', ';']
    } else if c == '"' {
        seq!['&', 'q', 'u', 'o', 't', ';']
    } else if c == '\'' {
        seq!['&', '#', '3', '9', ';']
    } else {
        seq![c]
    }
}

/// Attribute-value escaping of a whole string, character by character.
pub open spec fn attr_escaped(s: Seq<char>) -> Seq<char>
    decreases s.len(),
{
    if s.len() == 0 {
        Seq::empty()
    } else {
        attr_escape_char(s[0]) + attr_escaped(s.drop_first())
    }
}

/// The URL escaping applied to href/src values. It percent-encodes the
/// UTF-8 bytes outside the safe set and entity-encodes `&` and `'`;
/// spelling that out byte-wise would say less than the source, so the
/// result is only named: it is a function of the input characters alone.
pub uninterp spec fn href_escaped(s: Seq<char>) -> Seq<char>;

/// Relies on pulldown_cmark_escape::escape_html, which replaces the five
/// special HTML characters `&` `<` `>` `"` `'` by their entities and
/// keeps every other character. All replaced characters are ASCII, so
/// its byte-wise scan is exactly this character-wise map; writing into a
/// String cannot fail.
#[verifier::external_body]
pub(crate) fn escape_html(s: &str) -> (r: String)
    ensures
        r@ == attr_escaped(s@),
{
    let mut out = String::new();
    let _ = pulldown_cmark_escape::escape_html(&mut out, s);
    out
}

/// Relies on pulldown_cmark_escape::escape_html_body_text, which
/// replaces `&` `<` `>` by their entities and keeps every other
/// character. All replaced characters are ASCII, so its byte-wise scan
/// is exactly this character-wise map; writing into a String cannot
/// fail.
#[verifier::external_body]
pub(crate) fn escape_html_body(s: &str) -> (r: String)
    ensures
        r@ == body_escaped(s@),
{
    let mut out = String::new();
    let _ = pulldown_cmark_escape::escape_html_body_text(&mut out, s);
    out
}

/// Relies on pulldown_cmark_escape::escape_href, a pure function of the
/// input string: safe ASCII bytes pass through, `&` and `'` become
/// entities, every other byte becomes a percent escape. An empty input
/// writes nothing; writing into a String cannot fail.
#[verifier::external_body]
pub(crate) fn escape_href(s: &str) -> (r: String)
    ensures
        r@ == href_escaped(s@),
        s@.len() == 0 ==> r@.len() == 0,
{
    let mut out = String::new();
    let _ = pulldown_cmark_escape::escape_href(&mut out, s);
    out
}

} // verus!
