//! The calls this library makes into other crates and into parts of the
//! standard library that come without a specification. Each function here is
//! believed, not proved: its body is the call, its contract is what the
//! callee's documentation and source say of it.

use vstd::prelude::*;

verus! {

/// The JSON string literal for `text`: the quoted, escaped form that
/// `serde_json` prints for a string value.
pub uninterp spec fn json_quoted(text: Seq<char>) -> Seq<char>;

/// Prints `text` as a JSON string literal, through the `Display` impl of
/// `serde_json::Value`, which writes the compact form. The result depends on
/// the characters of `text` alone.
#[verifier::external_body]
pub(crate) fn json_quote(text: &str) -> (r: String)
    ensures
        r@ == json_quoted(text@),
{
    serde_json::Value::String(text.to_owned()).to_string()
}

/// The text that `String::from_utf8_lossy` makes of `bytes`: their decoding
/// as UTF-8, each invalid stretch replaced by U+FFFD.
pub uninterp spec fn utf8_lossy(bytes: Seq<u8>) -> Seq<char>;

/// Decodes `bytes` with `String::from_utf8_lossy`, which never fails and
/// whose result depends on the bytes alone.
#[verifier::external_body]
pub(crate) fn lossy_text(bytes: &[u8]) -> (r: String)
    ensures
        r@ == utf8_lossy(bytes@),
{
    String::from_utf8_lossy(bytes).into_owned()
}

/// The HTML that `ansi_to_html::convert` makes of `text`, or `None` where it
/// reports an error: an escape sequence it cannot parse.
pub uninterp spec fn ansi_html(text: Seq<char>) -> Option<Seq<char>>;

/// Renders terminal output as HTML with `ansi_to_html::convert`: markup
/// characters are escaped and colour codes become tags. The call reads
/// nothing but its argument; an error becomes `None`.
#[verifier::external_body]
pub(crate) fn ansi_to_html(text: &str) -> (r: Option<String>)
    ensures
        match r {
            Some(html) => ansi_html(text@) == Some(html@),
            None => ansi_html(text@) is None,
        },
{
    match ansi_to_html::convert(text) {
        Ok(html) => Some(html),
        Err(_) => None,
    }
}

/// The string that a JSON document holds at a JSON pointer: `None` where the
/// bytes are no JSON document, where the pointer leads nowhere, and where it
/// leads to something that is not a string.
pub uninterp spec fn json_string_at(document: Seq<u8>, pointer: Seq<char>) -> Option<Seq<char>>;

/// Parses `document` with `serde_json::from_slice` and looks `pointer` up
/// with `Value::pointer`, which follows the member names and array indexes
/// that the pointer lists. The result depends on the two arguments alone.
#[verifier::external_body]
pub(crate) fn json_text_at(document: &[u8], pointer: &str) -> (r: Option<String>)
    ensures
        match r {
            Some(text) => json_string_at(document@, pointer@) == Some(text@),
            None => json_string_at(document@, pointer@) is None,
        },
{
    match serde_json::from_slice::<serde_json::Value>(document) {
        Ok(value) => match value.pointer(pointer) {
            Some(serde_json::Value::String(text)) => Some(text.clone()),
            _ => None,
        },
        Err(_) => None,
    }
}

/// What `trillium_client::Url::parse` makes of `text`: the serialization of the parsed
/// URL, or the message of the parse error.
pub uninterp spec fn url_parsed(text: Seq<char>) -> Result<Seq<char>, Seq<char>>;

/// Parses `text` as an absolute URL with `trillium_client::Url::parse`, the
/// parser of the `url` crate, and returns the URL in its normal form, or the
/// error's message. The result depends on the text alone.
#[verifier::external_body]
pub(crate) fn parse_absolute_url(text: &str) -> (r: Result<String, String>)
    ensures
        match r {
            Ok(url) => url_parsed(text@) == Ok::<Seq<char>, Seq<char>>(url@),
            Err(message) => url_parsed(text@) == Err::<Seq<char>, Seq<char>>(message@),
        },
{
    match trillium_client::Url::parse(text) {
        Ok(url) => Ok(String::from(url)),
        Err(error) => Err(error.to_string()),
    }
}

/// The parts of a media type that a content type header names.
#[derive(Debug, PartialEq, Eq)]
pub struct MediaType {
    /// The top level type, such as `text`, in small letters.
    pub kind: String,
    /// The subtype, such as `html`, without its suffix, in small letters.
    pub subtype: String,
    /// The suffix after `+`, such as `json`, in small letters.
    pub suffix: Option<String>,
}

/// The parts that the `mime` crate reads out of `text`: type, subtype and
/// suffix, or `None` where it does not parse.
pub uninterp spec fn media_type_parsed(text: Seq<char>) -> Option<
    (Seq<char>, Seq<char>, Option<Seq<char>>),
>;

/// Parses a media type with the `mime` crate and returns what its accessors
/// `type_`, `subtype` and `suffix` give. The result depends on the text
/// alone.
#[verifier::external_body]
pub(crate) fn parse_media_type(text: &str) -> (r: Option<MediaType>)
    ensures
        match r {
            Some(media) => media_type_parsed(text@) == Some(
                (
                    media.kind@,
                    media.subtype@,
                    match media.suffix {
                        Some(suffix) => Some(suffix@),
                        None => None,
                    },
                ),
            ),
            None => media_type_parsed(text@) is None,
        },
{
    match text.parse::<mime::Mime>() {
        Ok(media) => Some(
            MediaType {
                kind: media.type_().as_str().to_owned(),
                subtype: media.subtype().as_str().to_owned(),
                suffix: match media.suffix() {
                    Some(suffix) => Some(suffix.as_str().to_owned()),
                    None => None,
                },
            },
        ),
        Err(_) => None,
    }
}

/// A number of bytes as the `size` crate words it in decimal units, such as
/// `1.50 MB`.
pub uninterp spec fn size_text(bytes: u64) -> Seq<char>;

/// Words a number of bytes with the `size` crate, in decimal units and in
/// its default style. The result depends on the number alone.
#[verifier::external_body]
pub(crate) fn format_size(bytes: u64) -> (r: String)
    ensures
        r@ == size_text(bytes),
{
    size::Size::from_bytes(bytes).format().with_base(size::Base::Base10).to_string()
}

/// `text` with every letter replaced by its capital, as `str::to_uppercase`
/// does it.
pub uninterp spec fn uppercase(text: Seq<char>) -> Seq<char>;

/// Capitalises `text` with `str::to_uppercase`, which follows the Unicode
/// case mapping and depends on the text alone.
#[verifier::external_body]
pub(crate) fn to_uppercase(text: &str) -> (r: String)
    ensures
        r@ == uppercase(text@),
{
    text.to_uppercase()
}

/// The request method that `trillium_client::Method` reads out of `text`,
/// by its name in capitals, or `None` where the text names no method.
pub uninterp spec fn method_parsed(text: Seq<char>) -> Option<Seq<char>>;

/// Looks a request method up with the `FromStr` impl of
/// `trillium_client::Method` and returns its name as `Method::as_str` gives
/// it. The result depends on the text alone.
#[verifier::external_body]
pub(crate) fn parse_method(text: &str) -> (r: Option<String>)
    ensures
        match r {
            Some(name) => method_parsed(text@) == Some(name@),
            None => method_parsed(text@) is None,
        },
{
    match text.parse::<trillium_client::Method>() {
        Ok(method) => Some(method.as_str().to_owned()),
        Err(_) => None,
    }
}

} // verus!
