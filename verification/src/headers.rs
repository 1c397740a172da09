//! Header fields of HTTP messages.
use http::{HeaderMap, HeaderValue};
use vstd::prelude::*;
use vstd::utf8::*;

use crate::text::{ascii_lower_text, header_text, opt_text, visible_text};

verus! {

/// The header fields of a message.
#[verifier::external_type_specification]
#[verifier::external_body]
#[verifier::reject_recursive_types(T)]
pub struct ExHeaderMap<T>(http::HeaderMap<T>);

/// The value of a header field.
#[verifier::external_type_specification]
#[verifier::external_body]
pub struct ExHeaderValue(http::HeaderValue);

/// What a header map holds: under each name, written small, its values in the
/// order in which they came.
pub uninterp spec fn header_fields(map: HeaderMap<HeaderValue>) -> Map<Seq<char>, Seq<Seq<u8>>>;

/// The first value under a name, whatever the case of its letters.
pub open spec fn first_value(fields: Map<Seq<char>, Seq<Seq<u8>>>, name: Seq<char>) -> Option<
    Seq<u8>,
> {
    if fields.contains_key(ascii_lower_text(name)) {
        Some(fields[ascii_lower_text(name)][0])
    } else {
        None
    }
}

/// The text of the first value under a name; nothing where there is no value, or
/// where it is not visible ASCII.
pub open spec fn field_text(fields: Map<Seq<char>, Seq<Seq<u8>>>, name: Seq<char>) -> Option<
    Seq<char>,
> {
    match first_value(fields, name) {
        Some(value) => visible_text(value),
        None => None,
    }
}

/// Bytes by their values, or their absence.
pub open spec fn opt_bytes(bytes: Option<Vec<u8>>) -> Option<Seq<u8>> {
    match bytes {
        Some(b) => Some(b@),
        None => None,
    }
}

/// `http::HeaderMap::get` gives the first value under a name, and regards `A` to
/// `Z` as their small letters; a text that is no header name has no value.
#[verifier::external_body]
pub(crate) fn get_value(map: &HeaderMap<HeaderValue>, name: &str) -> (value: Option<Vec<u8>>)
    ensures
        opt_bytes(value) == first_value(header_fields(*map), name@),
{
    map.get(name).map(|value| value.as_bytes().to_vec())
}

/// Whether a text can be the value of a header field: it holds no control
/// character but the tab.
pub open spec fn header_safe(s: Seq<char>) -> bool {
    forall|i: int|
        0 <= i < s.len() ==> {
            let code = (#[trigger] s[i]) as u32;
            32 <= code && code != 127 || code == 9
        }
}

/// `http::HeaderValue::from_str` accepts a text exactly where every byte of it is
/// a tab, or at least 32 and not 127.
#[verifier::external_body]
pub(crate) fn is_header_value(text: &str) -> (valid: bool)
    ensures
        valid == header_safe(text@),
{
    HeaderValue::from_str(text).is_ok()
}

/// How many names a header map may hold with another one surely finding room.
pub const MAX_NAMES: usize = 6553;

/// How many names there are, if they can be counted.
pub open spec fn name_count(fields: Map<Seq<char>, Seq<Seq<u8>>>) -> Option<nat> {
    if fields.dom().finite() {
        Some(fields.dom().len())
    } else {
        None
    }
}

/// Whether another name surely finds room.
pub open spec fn has_room(fields: Map<Seq<char>, Seq<Seq<u8>>>) -> bool {
    name_count(fields) matches Some(count) && count <= MAX_NAMES
}

/// Whether a text is a header name of at most sixty-four small letters and
/// hyphens.
pub open spec fn plain_name(s: Seq<char>) -> bool {
    &&& 0 < s.len() <= 64
    &&& forall|i: int| 0 <= i < s.len() ==> 97 <= (#[trigger] s[i]) as u32 <= 122 || s[i] == '-'
}

/// `http::HeaderMap::try_insert` puts one value in the place of all under a name,
/// and says so, or leaves the map's fields as they are where its table cannot
/// grow. That depends on how the table was filled; with as few names as are
/// counted here it always has room. On a text that is no header name it panics.
/// `http::HeaderValue::from_str` makes the value out of the UTF-8 bytes of the
/// text.
#[verifier::external_body]
pub(crate) fn set_value(map: &mut HeaderMap<HeaderValue>, name: &'static str, text: &str) -> (set:
    bool)
    requires
        plain_name(name@),
        header_safe(text@),
    ensures
        header_fields(*final(map)) == (if set {
            header_fields(*old(map)).insert(name@, seq![encode_utf8(text@)])
        } else {
            header_fields(*old(map))
        }),
        has_room(header_fields(*old(map))) ==> set,
{
    map.try_insert(name, HeaderValue::from_str(text).unwrap()).is_ok()
}

/// `http::HeaderMap::remove` takes out all values under a name, whatever the
/// case of its letters.
#[verifier::external_body]
pub(crate) fn remove_values(map: &mut HeaderMap<HeaderValue>, name: &str)
    ensures
        header_fields(*final(map)) == header_fields(*old(map)).remove(ascii_lower_text(name@)),
{
    map.remove(name);
}

/// The text of the first value under a name.
pub fn get_text(map: &HeaderMap<HeaderValue>, name: &str) -> (text: Option<String>)
    ensures
        opt_text(text) == field_text(header_fields(*map), name@),
{
    match get_value(map, name) {
        Some(value) => header_text(value.as_slice()),
        None => None,
    }
}

} // verus!
