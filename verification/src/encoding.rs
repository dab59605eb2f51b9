//! The encoders and decoders offered to scripts: Base64, HTML entities and
//! percent-encoding, each computed by its crate behind a trusted wrapper.

use vstd::prelude::*;
use vstd::utf8::*;

verus! {

broadcast use vstd::utf8::encode_utf8_decode_utf8, vstd::utf8::encode_utf8_valid_utf8;

/// What `base64::encode` (standard alphabet, padded) returns for `bytes`.
pub uninterp spec fn base64_encode_of(bytes: Seq<u8>) -> Seq<char>;

/// What `base64::decode` (standard alphabet) returns for the UTF-8 bytes of
/// `text`: `None` when it reports an error.
pub uninterp spec fn base64_decode_of(text: Seq<char>) -> Option<Seq<u8>>;

/// What `String::from_utf8_lossy` returns for `bytes`.
pub uninterp spec fn utf8_lossy_of(bytes: Seq<u8>) -> Seq<char>;

/// What `html_escape::decode_html_entities` returns.
pub uninterp spec fn html_decode_entities_of(text: Seq<char>) -> Seq<char>;

/// What `url_escape::decode` returns.
pub uninterp spec fn url_escape_decode_of(text: Seq<char>) -> Seq<char>;

/// What `urlencoding::decode` returns: `None` when the decoded bytes are not UTF-8.
pub uninterp spec fn url_component_decode_of(text: Seq<char>) -> Option<Seq<char>>;

/// The HTML entity for `c` when it is `&`, `<` or `>`; else `c` itself.
pub open spec fn html_escape_char(c: char) -> Seq<char> {
    if c == '&' {
        seq!['&', 'a', 'm', 'p', ';']
    } else if c == '<' {
        seq!['&', 'l', 't', ';']
    } else if c == '>' {
        seq!['&', 'g', 't', ';']
    } else {
        seq![c]
    }
}

/// `text` with `&`, `<` and `>` written as `&amp;`, `&lt;` and `&gt;`.
pub open spec fn html_escape_text(text: Seq<char>) -> Seq<char>
    decreases text.len(),
{
    if text.len() == 0 {
        Seq::empty()
    } else {
        html_escape_text(text.drop_last()) + html_escape_char(text.last())
    }
}

/// The upper-case hexadecimal digit of `d` (below 16).
pub open spec fn hex_digit(d: u8) -> char {
    if d < 10 { (48 + d) as char } else { (55 + d) as char }
}

/// `bytes` with every byte that `keep` refuses written as `%` and two
/// upper-case hexadecimal digits, and every byte it keeps (ASCII) as itself.
pub open spec fn percent_encoded(bytes: Seq<u8>, keep: spec_fn(u8) -> bool) -> Seq<char>
    decreases bytes.len(),
{
    if bytes.len() == 0 {
        Seq::empty()
    } else {
        let c = bytes.last();
        percent_encoded(bytes.drop_last(), keep) + if keep(c) {
            seq![c as char]
        } else {
            seq!['%', hex_digit(c / 16), hex_digit(c % 16)]
        }
    }
}

/// Whether `c` is a hexadecimal digit, in either case.
pub open spec fn is_hex_char(c: char) -> bool {
    ('0' <= c <= '9') || ('a' <= c <= 'f') || ('A' <= c <= 'F')
}

/// No `%` in `s` is followed by two hexadecimal digits: percent-decoding
/// leaves every `%` of `s` as it is.
pub open spec fn no_percent_escape(s: Seq<char>) -> bool {
    forall|i: int| 0 <= i && i + 2 < s.len() && s[i] == '%' ==> !(is_hex_char(#[trigger] s[i + 1]) && is_hex_char(s[i + 2]))
}

/// The bytes that a URL component keeps as they are: ASCII letters, digits
/// and `-`, `.`, `_`, `~`.
pub open spec fn component_keeps(c: u8) -> bool {
    (48 <= c <= 57) || (65 <= c <= 90) || (97 <= c <= 122) || c == 45 || c == 46 || c == 95 || c == 126
}

/// The bytes that a URL fragment keeps as they are: ASCII, not a control,
/// not DEL, and none of space, `"`, `<`, `>` and the backquote.
pub open spec fn fragment_keeps(c: u8) -> bool {
    32 < c < 127 && c != 34 && c != 60 && c != 62 && c != 96
}

/// `base64::encode` of `bytes`.  Decoding the result with `base64::decode`
/// gives the bytes back (the standard alphabet encodes every byte string
/// reversibly).
#[verifier::external_body]
fn base64_encode_bytes(bytes: &[u8]) -> (r: String)
    ensures
        r@ == base64_encode_of(bytes@),
        base64_decode_of(r@) == Some(bytes@),
{
    base64::encode(bytes)
}

/// `base64::decode` of `text`; `Err` carries the decoder's message.  The
/// text of that message is not stated.
#[verifier::external_body]
fn base64_decode_text_bytes(text: &str) -> (r: Result<Vec<u8>, String>)
    ensures
        r is Ok <==> base64_decode_of(text@) is Some,
        r matches Ok(v) ==> Some(v@) == base64_decode_of(text@),
{
    match base64::decode(text) {
        Ok(v) => Ok(v),
        Err(e) => Err(e.to_string()),
    }
}

/// `String::from_utf8_lossy` of `bytes`: for valid UTF-8 the decoded text.
#[verifier::external_body]
fn utf8_lossy(bytes: &[u8]) -> (r: String)
    ensures
        r@ == utf8_lossy_of(bytes@),
        valid_utf8(bytes@) ==> r@ == decode_utf8(bytes@),
{
    String::from_utf8_lossy(bytes).to_string()
}

/// `html_escape::encode_text` of `text`: `&`, `<` and `>` escaped.
#[verifier::external_body]
fn html_encode_text(text: &str) -> (r: String)
    ensures
        r@ == html_escape_text(text@),
{
    html_escape::encode_text(text).to_string()
}

#[verifier::external_body]
fn html_decode_entities(text: &str) -> (r: String)
    ensures
        r@ == html_decode_entities_of(text@),
{
    html_escape::decode_html_entities(text).to_string()
}

/// `url_escape::encode_fragment` of `text`: the fragment percent-encode set
/// (C0 controls, DEL, space, `"`, `<`, `>`, backquote) and every non-ASCII
/// byte escaped.  A `%` is kept as it is, and `url_escape::decode` turns
/// back only a `%` followed by two hexadecimal digits, so it gives back any
/// text in which no `%` is followed by two hexadecimal digits.
#[verifier::external_body]
fn url_fragment_encode(text: &str) -> (r: String)
    ensures
        r@ == percent_encoded(encode_utf8(text@), |c: u8| fragment_keeps(c)),
        no_percent_escape(text@) ==> url_escape_decode_of(r@) == text@,
{
    url_escape::encode_fragment(text).to_string()
}

#[verifier::external_body]
fn url_escape_decode(text: &str) -> (r: String)
    ensures
        r@ == url_escape_decode_of(text@),
{
    url_escape::decode(text).to_string()
}

/// `urlencoding::encode` of `text`: every byte but ASCII letters, digits and
/// `-_.~` percent-encoded, so that `urlencoding::decode` gives `text` back.
#[verifier::external_body]
fn url_component_encode_text(text: &str) -> (r: String)
    ensures
        r@ == percent_encoded(encode_utf8(text@), |c: u8| component_keeps(c)),
        url_component_decode_of(r@) == Some(text@),
{
    urlencoding::encode(text).into_owned()
}

/// `urlencoding::decode` of `text`; `None` when the result is not UTF-8.
#[verifier::external_body]
fn url_component_decode_text(text: &str) -> (r: Option<String>)
    ensures
        match url_component_decode_of(text@) {
            Some(d) => r matches Some(s) && s@ == d,
            None => r is None,
        },
{
    match urlencoding::decode(text) {
        Ok(d) => Some(d.into_owned()),
        Err(_) => None,
    }
}

/// What the Base64 text decoder returns: the decoded bytes read as UTF-8,
/// invalid sequences replaced; or the error for invalid Base64.
pub open spec fn spec_base64_decode_text(text: Seq<char>) -> Result<Seq<char>, Seq<char>> {
    match base64_decode_of(text) {
        Some(b) => Ok(if valid_utf8(b) { decode_utf8(b) } else { utf8_lossy_of(b) }),
        None => Err("Invalid Base64 input"@),
    }
}

/// The Base64 encoding of the UTF-8 bytes of `txt`.  Decoding it as text
/// gives `txt` back.
pub fn base64_encode(txt: String) -> (r: String)
    ensures
        r@ == base64_encode_of(encode_utf8(txt@)),
        base64_decode_of(r@) == Some(encode_utf8(txt@)),
        spec_base64_decode_text(r@) == Ok::<Seq<char>, Seq<char>>(txt@),
{
    let bytes = txt.as_str().as_bytes();
    let r = base64_encode_bytes(bytes);
    proof {
        let b = encode_utf8(txt@);
        assert(valid_utf8(b));
        assert(decode_utf8(b) == txt@);
    }
    r
}

/// The bytes that Base64 `txt` encodes; `Err` with the decoder's message
/// when `txt` is not valid Base64.
pub fn base64_decode(txt: String) -> (r: Result<Vec<u8>, String>)
    ensures
        r is Ok <==> base64_decode_of(txt@) is Some,
        r matches Ok(v) ==> Some(v@) == base64_decode_of(txt@),
{
    base64_decode_text_bytes(txt.as_str())
}

/// The text that Base64 `input` encodes, read as UTF-8 with invalid sequences
/// replaced; `Err("Invalid Base64 input")` when `input` is not valid Base64.
pub fn base64_decode_text(input: String) -> (r: Result<String, String>)
    ensures
        crate::args::result_view(r) == spec_base64_decode_text(input@),
{
    match base64_decode_text_bytes(input.as_str()) {
        Ok(bytes) => Ok(utf8_lossy(bytes.as_slice())),
        Err(_) => Err("Invalid Base64 input".to_string()),
    }
}

/// `txt` with `&`, `<` and `>` written as HTML entities.
pub fn htmlencode(txt: String) -> (r: String)
    ensures
        r@ == html_escape_text(txt@),
{
    html_encode_text(txt.as_str())
}

/// `txt` with its HTML entities decoded.
pub fn htmldecode(txt: String) -> (r: String)
    ensures
        r@ == html_decode_entities_of(txt@),
{
    html_decode_entities(txt.as_str())
}

/// `txt` percent-encoded for a URL fragment.  Decoding it with `urldecode`
/// gives back any text in which no `%` is followed by two hexadecimal digits
/// (a `%` is kept as it is, so `100%` comes back, but `%41` comes back as `A`).
pub fn urlencode(txt: String) -> (r: String)
    ensures
        r@ == percent_encoded(encode_utf8(txt@), |c: u8| fragment_keeps(c)),
        no_percent_escape(txt@) ==> url_escape_decode_of(r@) == txt@,
{
    url_fragment_encode(txt.as_str())
}

/// `txt` with its percent escapes decoded.
pub fn urldecode(txt: String) -> (r: String)
    ensures
        r@ == url_escape_decode_of(txt@),
{
    url_escape_decode(txt.as_str())
}

/// What the URL component decoder returns.
pub open spec fn spec_url_component_decode(text: Seq<char>) -> Result<Seq<char>, Seq<char>> {
    match url_component_decode_of(text) {
        Some(d) => Ok(d),
        None => Err("Invalid URL input"@),
    }
}

/// `input` percent-encoded as a URL component.  Decoding it gives `input` back.
pub fn url_component_encode(input: String) -> (r: String)
    ensures
        r@ == percent_encoded(encode_utf8(input@), |c: u8| component_keeps(c)),
        spec_url_component_decode(r@) == Ok::<Seq<char>, Seq<char>>(input@),
{
    url_component_encode_text(input.as_str())
}

/// `input` with its percent escapes decoded; `Err("Invalid URL input")` when
/// the decoded bytes are not UTF-8.
pub fn url_component_decode(input: String) -> (r: Result<String, String>)
    ensures
        crate::args::result_view(r) == spec_url_component_decode(input@),
{
    match url_component_decode_text(input.as_str()) {
        Some(d) => Ok(d),
        None => Err("Invalid URL input".to_string()),
    }
}

} // verus!
