//! The headers of a conditional request and of its response: the ETag that
//! goes back and forth, and the rate-limit budget that rides along.

use vstd::prelude::*;
use vstd::string::*;
use vstd::utf8::*;

use crate::github::types;
use crate::github::types::RateLimit;
use crate::text;
use crate::time;
use crate::time::Timestamp;

verus! {

/// A header map of the `http` crate.
#[verifier::external_type_specification]
#[verifier::external_body]
#[verifier::reject_recursive_types(T)]
pub struct ExHeaderMap<T>(http::HeaderMap<T>);

/// A header value of the `http` crate, which a header map holds.
#[verifier::external_type_specification]
#[verifier::external_body]
pub struct ExHeaderValue(http::HeaderValue);

/// What a header map holds: the bytes of the first value under each name, the
/// names in lower case.
pub uninterp spec fn header_values(headers: http::HeaderMap) -> Map<Seq<char>, Seq<u8>>;

/// Whether `name` is a header name of lower-case letters and hyphens, of a
/// length that any header map accepts.
pub open spec fn header_name(name: Seq<char>) -> bool {
    &&& 0 < name.len() <= 64
    &&& forall|i: int|
        0 <= i < name.len() ==> ('a' <= #[trigger] name[i] <= 'z' || name[i] == '-')
}

/// The bytes that may stand in a header value.
pub open spec fn value_byte(b: u8) -> bool {
    b >= 32 && b != 127 || b == 9
}

/// The bytes of a header value that reads as text.
pub open spec fn visible_byte(b: u8) -> bool {
    32 <= b < 127 || b == 9
}

/// Whether a header value may hold these bytes.
pub open spec fn value_bytes(bytes: Seq<u8>) -> bool {
    forall|i: int| 0 <= i < bytes.len() ==> value_byte(#[trigger] bytes[i])
}

/// Whether a header value with these bytes reads as text.
pub open spec fn visible_bytes(bytes: Seq<u8>) -> bool {
    forall|i: int| 0 <= i < bytes.len() ==> visible_byte(#[trigger] bytes[i])
}

/// ASCII bytes as characters.
pub open spec fn ascii_text(bytes: Seq<u8>) -> Seq<char> {
    bytes.map_values(|b: u8| b as char)
}

/// What a header map without headers holds.
pub open spec fn no_values() -> Map<Seq<char>, Seq<u8>> {
    Map::empty()
}

/// The text under a header name, where there is some that reads as text.
pub open spec fn header_text_of(
    values: Map<Seq<char>, Seq<u8>>,
    name: Seq<char>,
) -> Option<Seq<char>> {
    if values.dom().contains(name) && visible_bytes(values[name]) {
        Some(ascii_text(values[name]))
    } else {
        None
    }
}

/// `http::HeaderMap::new`: a map with no headers.
#[verifier::external_body]
fn no_headers() -> (r: http::HeaderMap)
    ensures
        header_values(r) == no_values(),
{
    http::HeaderMap::new()
}

/// `http::HeaderValue::from_str` accepts a text whose bytes may all stand in a
/// header value, and `http::HeaderMap::insert` files it under `if-none-match`.
/// The answer tells whether the text was accepted; a map with room never
/// refuses it, so the map is asked to be empty.
#[verifier::external_body]
fn set_if_none_match(headers: &mut http::HeaderMap, etag: &str) -> (r: bool)
    requires
        header_values(*old(headers)) == no_values(),
    ensures
        r == value_bytes(encode_utf8(etag@)),
        r ==> header_values(*final(headers)) == header_values(*old(headers)).insert(
            "if-none-match"@,
            encode_utf8(etag@),
        ),
        !r ==> header_values(*final(headers)) == header_values(*old(headers)),
{
    match http::HeaderValue::from_str(etag) {
        Ok(value) => {
            headers.insert(http::header::IF_NONE_MATCH, value);
            true
        },
        Err(_) => false,
    }
}

/// `http::HeaderMap::get` finds the first value under a name, and
/// `http::HeaderValue::to_str` reads it where every byte is visible ASCII, a
/// space or a tab.
#[verifier::external_body]
fn header_text(headers: &http::HeaderMap, name: &str) -> (r: Option<String>)
    requires
        header_name(name@),
    ensures
        types::optional_text(r) == header_text_of(header_values(*headers), name@),
{
    headers.get(name)?.to_str().ok().map(|value| value.to_owned())
}

/// What the headers of a conditional request hold: `If-None-Match` with the
/// stored ETag, where there is one that a header can carry.
pub open spec fn conditional_headers(etag: Option<Seq<char>>) -> Map<Seq<char>, Seq<u8>> {
    match etag {
        Some(tag) => if value_bytes(encode_utf8(tag)) {
            no_values().insert("if-none-match"@, encode_utf8(tag))
        } else {
            no_values()
        },
        None => no_values(),
    }
}

/// The headers of a conditional request.
pub fn request_headers(etag: Option<&str>) -> (r: http::HeaderMap)
    ensures
        header_values(r) == conditional_headers(
            match etag {
                Some(tag) => Some(tag@),
                None => None,
            },
        ),
{
    let mut headers = no_headers();
    if let Some(tag) = etag {
        let _accepted: bool = set_if_none_match(&mut headers, tag);
    }
    headers
}

/// The ETag among a response's headers, where it reads as text.
pub open spec fn etag_of(values: Map<Seq<char>, Seq<u8>>) -> Option<Seq<char>> {
    header_text_of(values, "etag"@)
}

/// Read the ETag from a response's headers.
pub fn read_etag(headers: &http::HeaderMap) -> (r: Option<String>)
    ensures
        types::optional_text(r) == etag_of(header_values(*headers)),
{
    proof {
        reveal_strlit("etag");
    }
    header_text(headers, "etag")
}

/// The number under a header name, where there is one.
pub open spec fn header_number(values: Map<Seq<char>, Seq<u8>>, name: Seq<char>) -> Option<u64> {
    match header_text_of(values, name) {
        Some(t) => text::number_in(t),
        None => None,
    }
}

fn read_number(headers: &http::HeaderMap, name: &str) -> (r: Option<u64>)
    requires
        header_name(name@),
    ensures
        r == header_number(header_values(*headers), name@),
{
    match header_text(headers, name) {
        Some(value) => text::parse_number(value.as_str()),
        None => None,
    }
}

/// `n` reinterpreted as a signed number: two's complement.
pub open spec fn as_signed(n: u64) -> int {
    if n <= i64::MAX {
        n as int
    } else {
        n - 0x1_0000_0000_0000_0000
    }
}

fn to_signed(n: u64) -> (r: i64)
    ensures
        r == as_signed(n),
{
    if n <= 0x7fff_ffff_ffff_ffff {
        n as i64
    } else {
        let below: i64 = (u64::MAX - n) as i64;
        -1 - below
    }
}

/// The instant that a count of seconds since the epoch names, where the
/// calendar has it.
pub open spec fn reset_at(seconds: Option<u64>) -> Option<Timestamp> {
    match seconds {
        Some(n) => time::instant_at(as_signed(n)),
        None => None,
    }
}

/// The instant at `seconds` since the epoch.
pub fn reset_time(seconds: u64) -> (r: Option<Timestamp>)
    ensures
        r == reset_at(Some(seconds)),
        r matches Some(t) ==> t.valid(),
{
    time::from_seconds(to_signed(seconds))
}

/// The budget among a response's headers: it takes the remaining count and the
/// limit; the reset may be missing.
pub open spec fn rate_of(values: Map<Seq<char>, Seq<u8>>) -> Option<RateLimit> {
    match (
        header_number(values, "x-ratelimit-remaining"@),
        header_number(values, "x-ratelimit-limit"@),
    ) {
        (Some(remaining), Some(limit)) => Some(
            RateLimit {
                remaining,
                limit,
                reset: reset_at(header_number(values, "x-ratelimit-reset"@)),
            },
        ),
        _ => None,
    }
}

/// Read the `X-RateLimit-*` budget from a response's headers, if present.
pub fn read_rate(headers: &http::HeaderMap) -> (r: Option<RateLimit>)
    ensures
        r == rate_of(header_values(*headers)),
        r matches Some(rate) ==> rate.valid(),
{
    proof {
        reveal_strlit("x-ratelimit-remaining");
        reveal_strlit("x-ratelimit-limit");
        reveal_strlit("x-ratelimit-reset");
    }
    let remaining: Option<u64> = read_number(headers, "x-ratelimit-remaining");
    let limit: Option<u64> = read_number(headers, "x-ratelimit-limit");
    match (remaining, limit) {
        (Some(remaining), Some(limit)) => {
            let reset: Option<Timestamp> = match read_number(headers, "x-ratelimit-reset") {
                Some(seconds) => reset_time(seconds),
                None => None,
            };
            Some(RateLimit { remaining, limit, reset })
        },
        _ => None,
    }
}

/// An ETag read from a response goes back unchanged: the next request's
/// `If-None-Match` has the bytes of the response's `ETag`.
pub proof fn law_etag_goes_back(values: Map<Seq<char>, Seq<u8>>)
    requires
        etag_of(values) is Some,
    ensures
        conditional_headers(etag_of(values)) == no_values().insert(
            "if-none-match"@,
            values["etag"@],
        ),
{
    let bytes = values["etag"@];
    let tag = ascii_text(bytes);
    assert forall|i: int| 0 <= i < tag.len() implies '\0' <= #[trigger] tag[i] <= '\u{7f}' by {
        assert(visible_byte(bytes[i]));
    }
    is_ascii_chars_encode_utf8(tag);
    assert forall|i: int| 0 <= i < bytes.len() implies encode_utf8(tag)[i] == bytes[i] by {
        assert(visible_byte(bytes[i]));
        assert(tag[i] as u8 == encode_utf8(tag)[i]);
    }
    assert(encode_utf8(tag) =~= bytes);
    assert forall|i: int| 0 <= i < bytes.len() implies value_byte(#[trigger] bytes[i]) by {
        assert(visible_byte(bytes[i]));
    }
}

/// The budget is read from its three headers, each number in its own place; it
/// takes the remaining count and the limit, and the reset is an instant where
/// the calendar has it.
pub proof fn law_budget_is_read(
    values: Map<Seq<char>, Seq<u8>>,
    remaining: u64,
    limit: u64,
    reset: u64,
)
    requires
        header_text_of(values, "x-ratelimit-remaining"@) == Some(text::decimal(remaining as nat)),
        header_text_of(values, "x-ratelimit-limit"@) == Some(text::decimal(limit as nat)),
    ensures
        rate_of(values) matches Some(rate) && rate.remaining == remaining && rate.limit == limit,
        header_text_of(values, "x-ratelimit-reset"@) == Some(text::decimal(reset as nat)) && reset
            <= 8_210_266_876_799 ==> rate_of(values).unwrap().reset == Some(
            Timestamp { secs: reset as i64, nanos: 0 },
        ),
        header_text_of(values, "x-ratelimit-reset"@) is None ==> rate_of(values).unwrap().reset
            is None,
{
    text::law_number_round_trip(remaining);
    text::law_number_round_trip(limit);
    text::law_number_round_trip(reset);
}

/// Without a remaining count or without a limit there is no budget.
pub proof fn law_half_a_budget_is_none(values: Map<Seq<char>, Seq<u8>>)
    requires
        !values.dom().contains("x-ratelimit-remaining"@) || !values.dom().contains(
            "x-ratelimit-limit"@,
        ),
    ensures
        rate_of(values) is None,
{
}

/// A request without a stored ETag, or with one that no header can carry, goes
/// out unconditionally.
pub proof fn law_no_etag_no_condition(tag: Seq<char>, i: int)
    ensures
        conditional_headers(None) == Map::<Seq<char>, Seq<u8>>::empty(),
        0 <= i < encode_utf8(tag).len() && (encode_utf8(tag)[i] == 10 || encode_utf8(tag)[i] == 13
            || encode_utf8(tag)[i] == 127) ==> conditional_headers(Some(tag)) == Map::<
            Seq<char>,
            Seq<u8>,
        >::empty(),
{
    if 0 <= i < encode_utf8(tag).len() && (encode_utf8(tag)[i] == 10 || encode_utf8(tag)[i] == 13
        || encode_utf8(tag)[i] == 127) {
        assert(!value_byte(encode_utf8(tag)[i]));
    }
}

/// A count of seconds too large for the calendar names no instant; one with the
/// sign bit set counts backwards from the epoch.
pub proof fn law_reset_wraps(n: u64)
    ensures
        8_210_266_876_799 < n <= 0x7fff_ffff_ffff_ffff ==> reset_at(Some(n)) is None,
        n - 0x1_0000_0000_0000_0000 >= -8_334_601_228_800 ==> (reset_at(Some(n)) matches Some(t)
            && t.secs == n - 0x1_0000_0000_0000_0000 && t.nanos == 0),
        reset_at(None) is None,
{
}

} // verus!
