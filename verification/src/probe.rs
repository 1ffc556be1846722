//! What the headers of a `HEAD` response say about a remote object.
use reqwest::header::{HeaderMap, HeaderValue};
use vstd::prelude::*;

use crate::text::{eq_ignore_ascii_case, parse_u64, same_but_for_case, spelled_u64};

verus! {

/// The header map of the `http` crate, as `reqwest` hands it out.
#[verifier::external_type_specification]
#[verifier::external_body]
#[verifier::reject_recursive_types(T)]
pub struct ExHeaderMap<T>(reqwest::header::HeaderMap<T>);

/// One header value of the `http` crate: a string of bytes.
#[verifier::external_type_specification]
#[verifier::external_body]
pub struct ExHeaderValue(reqwest::header::HeaderValue);

/// What `HeaderValue::to_str` fails with.
#[verifier::external_type_specification]
#[verifier::external_body]
pub struct ExToStrError(reqwest::header::ToStrError);

/// What a header map holds: for each header name, spelled in lower case, the
/// bytes of its values in the order in which they were added.
pub uninterp spec fn header_contents(headers: HeaderMap) -> Map<Seq<char>, Seq<Seq<u8>>>;

/// The bytes that a header value holds.
pub uninterp spec fn header_bytes(value: HeaderValue) -> Seq<u8>;

/// The bytes of the first value under a header name.
pub open spec fn first_value(headers: HeaderMap, name: Seq<char>) -> Option<Seq<u8>> {
    if header_contents(headers).contains_key(name) {
        Some(header_contents(headers)[name][0])
    } else {
        None
    }
}

/// A header name as the map keeps it: lower-case letters and hyphens.
pub open spec fn is_lower_name(name: Seq<char>) -> bool {
    forall|i: int| 0 <= i < name.len() ==> 'a' <= #[trigger] name[i] <= 'z' || name[i] == '-'
}

/// Calls `HeaderMap::get` with a name in lower case: it returns the first of the
/// values under that name, or `None` where there is none.
#[verifier::external_body]
fn header_get<'a>(headers: &'a HeaderMap, name: &str) -> (res: Option<&'a HeaderValue>)
    requires
        is_lower_name(name@),
    ensures
        match res {
            Some(value) => header_contents(*headers).contains_key(name@) && header_contents(
                *headers,
            )[name@].len() > 0 && header_contents(*headers)[name@][0] == header_bytes(*value),
            None => !header_contents(*headers).contains_key(name@),
        },
{
    headers.get(name)
}

/// A tab or a printable ASCII character.
pub open spec fn is_visible_ascii(b: u8) -> bool {
    32 <= b < 127 || b == 9
}

/// The text that bytes spell, if all of them are visible ASCII.
pub open spec fn visible_text(bytes: Seq<u8>) -> Option<Seq<char>> {
    if forall|i: int| 0 <= i < bytes.len() ==> is_visible_ascii(#[trigger] bytes[i]) {
        Some(bytes.map_values(|b: u8| b as char))
    } else {
        None
    }
}

/// `HeaderValue::to_str` yields the value as a text if it consists of visible
/// ASCII characters (tabs included), one character for each byte, and fails
/// otherwise.
pub assume_specification[ HeaderValue::to_str ](value: &HeaderValue) -> (res: Result<
    &str,
    reqwest::header::ToStrError,
>)
    ensures
        match res {
            Ok(text) => visible_text(header_bytes(*value)) == Some(text@),
            Err(_) => visible_text(header_bytes(*value)) is None,
        },
;

/// The first value under a header name, as a text.
pub open spec fn header_text(headers: HeaderMap, name: Seq<char>) -> Option<Seq<char>> {
    match first_value(headers, name) {
        Some(bytes) => visible_text(bytes),
        None => None,
    }
}

fn text_of<'a>(headers: &'a HeaderMap, name: &str) -> (res: Option<&'a str>)
    requires
        is_lower_name(name@),
    ensures
        match res {
            Some(text) => header_text(*headers, name@) == Some(text@),
            None => header_text(*headers, name@) is None,
        },
{
    match header_get(headers, name) {
        Some(value) => match value.to_str() {
            Ok(text) => Some(text),
            Err(_) => None,
        },
        None => None,
    }
}

/// The size that a server states for an object it serves byte ranges of, given
/// the texts of its `Accept-Ranges` and `Content-Length` headers: the length
/// counts only where the server accepts the unit `bytes`.
pub open spec fn stated_size(
    accept_ranges: Option<Seq<char>>,
    content_length: Option<Seq<char>>,
) -> Option<u64> {
    match (accept_ranges, content_length) {
        (Some(unit), Some(length)) => if same_but_for_case(unit, "bytes"@) {
            spelled_u64(length)
        } else {
            None
        },
        _ => None,
    }
}

/// Total size of a remote object that can be fetched in ranges, read from the
/// texts of the two headers.
pub fn size_from_texts(accept_ranges: Option<&str>, content_length: Option<&str>) -> (res: Option<
    u64,
>)
    ensures
        res == stated_size(
            match accept_ranges {
                Some(text) => Some(text@),
                None => None,
            },
            match content_length {
                Some(text) => Some(text@),
                None => None,
            },
        ),
{
    let supports_range: bool = match accept_ranges {
        Some(unit) => eq_ignore_ascii_case(unit, "bytes"),
        None => false,
    };
    let total: Option<u64> = match content_length {
        Some(length) => parse_u64(length),
        None => None,
    };
    if supports_range {
        total
    } else {
        None
    }
}

/// Reads a `HEAD` response: the total size of the object, or `None` if the
/// server does not advertise byte ranges or states no usable length.
pub fn probe_object(headers: &HeaderMap) -> (res: Option<u64>)
    ensures
        res == stated_size(
            header_text(*headers, "accept-ranges"@),
            header_text(*headers, "content-length"@),
        ),
{
    proof {
        reveal_strlit("accept-ranges");
        reveal_strlit("content-length");
    }
    size_from_texts(text_of(headers, "accept-ranges"), text_of(headers, "content-length"))
}

} // verus!
