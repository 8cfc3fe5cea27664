//! Request metadata: the headers that carry the token and the subscriber's identity.

use tonic::metadata::{AsciiMetadataValue, MetadataMap};
use vstd::prelude::*;
use vstd::utf8::{encode_utf8, is_ascii_chars};

verus! {

/// `tonic::metadata::MetadataMap`, the headers of a request.
#[verifier::external_type_specification]
#[verifier::external_body]
pub struct ExMetadataMap(MetadataMap);

/// The first value under each name of a metadata map, as raw bytes.
pub uninterp spec fn metadata_contents(map: MetadataMap) -> Map<Seq<char>, Seq<u8>>;

/// The name of the header with the shared token.
pub const TOKEN_HEADER: &'static str = "x-token";

/// The name of the header with the subscriber's identity.
pub const SUBSCRIPTION_HEADER: &'static str = "x-subscription-id";

/// The largest number of names up to which a map has room for one more.
pub const MAX_METADATA_NAMES: usize = 6553;

/// Whether a character may stand in a header value.
pub open spec fn header_char(c: char) -> bool {
    ' ' <= c && c != '\u{7f}' || c == '\t'
}

/// Whether a text can be sent as a header value.
pub open spec fn is_header_text(text: Seq<char>) -> bool {
    forall|i: int| 0 <= i < text.len() ==> header_char(#[trigger] text[i])
}

/// Whether a byte is a visible ASCII character, a space or a tab.
pub open spec fn visible(byte: u8) -> bool {
    32 <= byte < 127 || byte == 9
}

/// The text of a header value; there is none unless every byte is visible.
pub open spec fn visible_text(bytes: Seq<u8>) -> Option<Seq<char>> {
    if forall|i: int| 0 <= i < bytes.len() ==> visible(#[trigger] bytes[i]) {
        Some(bytes.map_values(|byte: u8| byte as char))
    } else {
        None
    }
}

/// The text of a header, if it is present and readable.
pub open spec fn header_text(contents: Map<Seq<char>, Seq<u8>>, name: Seq<char>) -> Option<
    Seq<char>,
> {
    if contents.contains_key(name) {
        visible_text(contents[name])
    } else {
        None
    }
}

/// Whether a name is one of the headers of the protocol.
pub open spec fn is_protocol_header(name: Seq<char>) -> bool {
    name == TOKEN_HEADER@ || name == SUBSCRIPTION_HEADER@
}

/// Reads a header with `MetadataMap::get` and `MetadataValue::to_str`: the first value under the
/// name, unless it holds a byte that is not visible.
#[verifier::external_body]
pub(crate) fn metadata_text(map: &MetadataMap, name: &'static str) -> (text: Option<String>)
    requires
        is_protocol_header(name@),
    ensures
        crate::text::text_view(text) == header_text(metadata_contents(*map), name@),
{
    map.get(name).and_then(|value| value.to_str().ok()).map(|value| value.to_owned())
}

/// Whether a text parses as `tonic::metadata::AsciiMetadataValue`. Despite the name of that type,
/// only control characters other than the tab are rejected.
#[verifier::external_body]
pub(crate) fn is_metadata_value(text: &str) -> (accepted: bool)
    ensures
        accepted == is_header_text(text@),
{
    text.parse::<AsciiMetadataValue>().is_ok()
}

/// Whether contents have so many names.
pub open spec fn has_names(contents: Map<Seq<char>, Seq<u8>>, count: usize) -> bool {
    contents.dom().finite() && contents.dom().len() == count
}

/// Counts the names of a map with `MetadataMap::keys_len`.
#[verifier::external_body]
pub(crate) fn metadata_names(map: &MetadataMap) -> (count: usize)
    ensures
        has_names(metadata_contents(*map), count),
{
    map.keys_len()
}

/// Sets a header with `MetadataMap::insert`, which replaces all values under the name. The map
/// panics when it would have to grow beyond its largest table, of 32768 slots. Even a map with many
/// colliding names does so only once a fifth of that table is full, which takes more names than the
/// bound.
#[verifier::external_body]
pub(crate) fn insert_metadata(map: &mut MetadataMap, name: &'static str, text: &str)
    requires
        is_protocol_header(name@),
        is_header_text(text@),
        metadata_contents(*old(map)).dom().finite(),
        metadata_contents(*old(map)).dom().len() <= MAX_METADATA_NAMES,
    ensures
        metadata_contents(*final(map)) == metadata_contents(*old(map)).insert(
            name@,
            encode_utf8(text@),
        ),
{
    let value: AsciiMetadataValue = text.parse().expect("the text is a header value");
    map.insert(name, value);
}

/// Whether a character is a visible ASCII character, a space or a tab.
pub open spec fn readable(c: char) -> bool {
    ' ' <= c <= '~' || c == '\t'
}

/// Whether a text is ASCII metadata: a header accepts it, and hands it back as it was.
pub open spec fn is_ascii_metadata(text: Seq<char>) -> bool {
    forall|i: int| 0 <= i < text.len() ==> readable(#[trigger] text[i])
}

/// Whether a text is ASCII metadata.
pub(crate) fn check_ascii_metadata(text: &str) -> (accepted: bool)
    ensures
        accepted == is_ascii_metadata(text@),
{
    let accepted = is_metadata_value(text) && text.is_ascii();
    proof {
        if accepted {
            assert forall|i: int| 0 <= i < text@.len() implies readable(#[trigger] text@[i]) by {
                assert(header_char(text@[i]));
            }
        }
        if is_ascii_metadata(text@) {
            assert forall|i: int| 0 <= i < text@.len() implies header_char(#[trigger] text@[i]) by {
                assert(readable(text@[i]));
            }
        }
    }
    accepted
}

/// ASCII metadata reads the same after a trip through a header. Other texts that a header
/// accepts, such as `é`, cannot be read back.
pub proof fn law_visible_text_survives(text: Seq<char>)
    requires
        is_ascii_metadata(text),
    ensures
        is_header_text(text),
        visible_text(encode_utf8(text)) == Some(text),
{
    assert(is_ascii_chars(text));
    vstd::utf8::is_ascii_chars_encode_utf8(text);
    let bytes = encode_utf8(text);
    assert forall|i: int| 0 <= i < bytes.len() implies visible(#[trigger] bytes[i]) by {
        assert(bytes[i] == text[i] as u8);
    }
    assert(bytes.map_values(|byte: u8| byte as char) =~= text) by {
        assert forall|i: int| 0 <= i < text.len() implies bytes[i] as char == text[i] by {
            assert(bytes[i] == text[i] as u8);
        }
    }
}

} // verus!
