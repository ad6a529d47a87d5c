//! Response headers and statuses.

use reqwest::header::{HeaderMap, HeaderValue};
use std::time::UNIX_EPOCH;
use vstd::prelude::*;
use vstd::string::*;

use super::error::{protocol_result, DownloadError};
use super::types::SECOND;
use crate::text::chars::{is_whitespace, same, same_ignoring_case, upper};
use crate::text::concat::{cat2, cat3, option_view};
use crate::text::number::{
    decimal, decimal_round_trip, number_value, parse_number, NumberError,
};
use crate::text::scan::{
    cut, first_at_is, split_once, strip_prefix, trim, trimmed, trimmed_is_same, without_prefix,
};

verus! {

/// The header list of a response.
#[verifier::external_type_specification]
#[verifier::external_body]
#[verifier::reject_recursive_types(T)]
pub struct ExHeaderMap<T>(HeaderMap<T>);

/// One header value.
#[verifier::external_type_specification]
#[verifier::external_body]
pub struct ExHeaderValue(HeaderValue);

/// The bytes found under each spelling of a header name; with several values
/// under one name, the first one.
pub uninterp spec fn header_values(headers: HeaderMap<HeaderValue>) -> Map<Seq<char>, Seq<u8>>;

/// Calls `HeaderMap::get` and copies the bytes of the value: the first value
/// stored under the name, or nothing.
#[verifier::external_body]
fn header_get(headers: &HeaderMap<HeaderValue>, name: &str) -> (value: Option<Vec<u8>>)
    ensures
        match value {
            Some(bytes) => header_values(*headers).contains_pair(name@, bytes@),
            None => !header_values(*headers).dom().contains(name@),
        },
{
    headers.get(name).map(|value| value.as_bytes().to_vec())
}

/// Seconds since 1970-01-01 that an HTTP date names, if the text is one.
pub uninterp spec fn http_date(text: Seq<char>) -> Option<u64>;

/// Calls `httpdate::parse_http_date`, which reads the three HTTP date forms.
/// A date it accepts is a whole number of seconds after 1970-01-01.
#[verifier::external_body]
fn parse_http_date(text: &str) -> (seconds: Option<u64>)
    ensures
        seconds == http_date(text@),
{
    let date = httpdate::parse_http_date(text).ok()?;
    date.duration_since(UNIX_EPOCH).ok().map(|age| age.as_secs())
}

/// The longest `Retry-After` that is honoured, in nanoseconds.
pub const MAX_RETRY_AFTER: u64 = 60_000_000_000;

/// The bytes of a header, if it is present.
pub open spec fn header_bytes(headers: HeaderMap<HeaderValue>, name: Seq<char>) -> Option<
    Seq<u8>,
> {
    if header_values(headers).dom().contains(name) {
        Some(header_values(headers)[name])
    } else {
        None
    }
}

/// Visible ASCII and tab: what a header value may hold to be read as text.
pub open spec fn readable(bytes: Seq<u8>) -> bool {
    forall|i: int| 0 <= i < bytes.len() ==> (32 <= #[trigger] bytes[i] < 127 || bytes[i] == 9)
}

/// The text of an ASCII byte string.
pub open spec fn ascii_text(bytes: Seq<u8>) -> Seq<char> {
    bytes.map_values(|byte: u8| byte as char)
}

/// The value of a header as text: absent, or present and possibly unreadable.
pub open spec fn header_text(headers: HeaderMap<HeaderValue>, name: Seq<char>) -> Option<
    Result<Seq<char>, ()>,
> {
    match header_bytes(headers, name) {
        None => None,
        Some(bytes) => if readable(bytes) {
            Some(Ok(ascii_text(bytes)))
        } else {
            Some(Err(()))
        },
    }
}

/// Reads a header value as text.
pub fn bytes_to_text(bytes: &Vec<u8>) -> (text: Option<String>)
    ensures
        match text {
            Some(value) => readable(bytes@) && value@ == ascii_text(bytes@),
            None => !readable(bytes@),
        },
{
    let mut text: String = String::new();
    let mut at: usize = 0;
    assert(text@ =~= ascii_text(bytes@.take(0)));
    while at < bytes.len()
        invariant
            at <= bytes@.len(),
            text@ == ascii_text(bytes@.take(at as int)),
            forall|i: int|
                0 <= i < at ==> (32 <= #[trigger] bytes@[i] < 127 || bytes@[i] == 9),
        decreases bytes@.len() - at,
    {
        let byte: u8 = bytes[at];
        if !((32 <= byte && byte < 127) || byte == 9) {
            return None;
        }
        text.push(byte as char);
        assert(text@ =~= ascii_text(bytes@.take(at + 1)));
        at += 1;
    }
    assert(bytes@.take(at as int) =~= bytes@);
    Some(text)
}

enum HeaderRead {
    Absent,
    Unreadable,
    Text(String),
}

fn read_header(headers: &HeaderMap<HeaderValue>, name: &str) -> (read: HeaderRead)
    ensures
        match read {
            HeaderRead::Absent => header_text(*headers, name@) is None,
            HeaderRead::Unreadable => header_text(*headers, name@) == Some(
                Err::<Seq<char>, ()>(()),
            ),
            HeaderRead::Text(text) => header_text(*headers, name@) == Some(
                Ok::<Seq<char>, ()>(text@),
            ),
        },
{
    match header_get(headers, name) {
        None => HeaderRead::Absent,
        Some(bytes) => match bytes_to_text(&bytes) {
            Some(text) => HeaderRead::Text(text),
            None => HeaderRead::Unreadable,
        },
    }
}

/// A satisfied byte range: first and last byte, and the total if known.
#[derive(Clone, Copy, Debug, PartialEq, Eq, Structural)]
pub struct ContentRange {
    pub start: u64,
    pub end: u64,
    pub total: Option<u64>,
}

/// The part behind the unit of a `Content-Range` value.
pub open spec fn range_body(value: Seq<char>) -> Option<Seq<char>> {
    match without_prefix(value, "bytes "@) {
        Some(rest) => Some(rest),
        None => without_prefix(value, "bytes="@),
    }
}

/// The total of a `Content-Range`: a number, or `*` for unknown.
pub open spec fn range_total(text: Seq<char>) -> Result<Option<u64>, NumberError> {
    if text == "*"@ {
        Ok(None)
    } else {
        match number_value(text) {
            Ok(total) => Ok(Some(total)),
            Err(error) => Err(error),
        }
    }
}

/// Meaning of a `Content-Range` value, or the text of the violation.
pub open spec fn range_value(raw: Seq<char>) -> Result<ContentRange, Seq<char>> {
    let value = trimmed(raw);
    match range_body(value) {
        None => Err("Content-Range is not in bytes: "@ + value),
        Some(rest) => match cut(rest, '/') {
            None => Err("malformed Content-Range: "@ + value),
            Some((range, total)) => if trimmed(range) == "*"@ {
                Err(
                    "unsatisfied Content-Range where a byte range was expected: "@ + value,
                )
            } else {
                match range_total(trimmed(total)) {
                    Err(error) => Err("invalid Content-Range total: "@ + error.text()),
                    Ok(total) => match cut(range, '-') {
                        None => Err("malformed Content-Range: "@ + value),
                        Some((start, end)) => match number_value(trimmed(start)) {
                            Err(error) => Err("invalid Content-Range start: "@ + error.text()),
                            Ok(start) => match number_value(trimmed(end)) {
                                Err(error) => Err("invalid Content-Range end: "@ + error.text()),
                                Ok(end) => if start > end || (total matches Some(total) && end
                                    >= total) {
                                    Err("invalid Content-Range bounds: "@ + value)
                                } else {
                                    Ok(ContentRange { start, end, total })
                                },
                            },
                        },
                    },
                }
            },
        },
    }
}

/// Parses a satisfied `Content-Range: bytes a-b/N`; `N` may be `*`.
pub fn parse_content_range(raw: &str) -> (result: Result<ContentRange, DownloadError>)
    ensures
        protocol_result(result, range_value(raw@)),
{
    let value: &str = trim(raw);
    let rest: &str = match strip_prefix(value, "bytes ") {
        Some(rest) => rest,
        None => match strip_prefix(value, "bytes=") {
            Some(rest) => rest,
            None => {
                return Err(
                    DownloadError::Protocol(cat2("Content-Range is not in bytes: ", value)),
                );
            },
        },
    };
    let (range, total_text) = match split_once(rest, '/') {
        Some(parts) => parts,
        None => {
            return Err(DownloadError::Protocol(cat2("malformed Content-Range: ", value)));
        },
    };
    if same(trim(range), "*") {
        return Err(
            DownloadError::Protocol(
                cat2("unsatisfied Content-Range where a byte range was expected: ", value),
            ),
        );
    }
    let digits: &str = trim(total_text);
    let total: Option<u64> = if same(digits, "*") {
        None
    } else {
        match parse_number(digits) {
            Ok(total) => Some(total),
            Err(error) => {
                return Err(
                    DownloadError::Protocol(
                        cat2("invalid Content-Range total: ", error.message().as_str()),
                    ),
                );
            },
        }
    };
    let (start_text, end_text) = match split_once(range, '-') {
        Some(parts) => parts,
        None => {
            return Err(DownloadError::Protocol(cat2("malformed Content-Range: ", value)));
        },
    };
    let start: u64 = match parse_number(trim(start_text)) {
        Ok(start) => start,
        Err(error) => {
            return Err(
                DownloadError::Protocol(
                    cat2("invalid Content-Range start: ", error.message().as_str()),
                ),
            );
        },
    };
    let end: u64 = match parse_number(trim(end_text)) {
        Ok(end) => end,
        Err(error) => {
            return Err(
                DownloadError::Protocol(
                    cat2("invalid Content-Range end: ", error.message().as_str()),
                ),
            );
        },
    };
    let outside: bool = match total {
        Some(total) => end >= total,
        None => false,
    };
    if start > end || outside {
        return Err(DownloadError::Protocol(cat2("invalid Content-Range bounds: ", value)));
    }
    Ok(ContentRange { start, end, total })
}

/// Total named by an unsatisfied `Content-Range`, or the violation.
pub open spec fn unsatisfied_value(raw: Seq<char>) -> Result<u64, Seq<char>> {
    let value = trimmed(raw);
    match without_prefix(value, "bytes "@) {
        None => Err("Content-Range is not in bytes: "@ + value),
        Some(rest) => match without_prefix(rest, "*/"@) {
            None => Err("expected unsatisfied Content-Range, got: "@ + value),
            Some(total) => match number_value(trimmed(total)) {
                Ok(total) => Ok(total),
                Err(error) => Err("invalid Content-Range total: "@ + error.text()),
            },
        },
    }
}

/// Parses the total of an unsatisfied `Content-Range: bytes */N`.
pub fn parse_unsatisfied_total(raw: &str) -> (result: Result<u64, DownloadError>)
    ensures
        protocol_result(result, unsatisfied_value(raw@)),
{
    let value: &str = trim(raw);
    let rest: &str = match strip_prefix(value, "bytes ") {
        Some(rest) => rest,
        None => {
            return Err(DownloadError::Protocol(cat2("Content-Range is not in bytes: ", value)));
        },
    };
    let total: &str = match strip_prefix(rest, "*/") {
        Some(total) => total,
        None => {
            return Err(
                DownloadError::Protocol(
                    cat2("expected unsatisfied Content-Range, got: ", value),
                ),
            );
        },
    };
    match parse_number(trim(total)) {
        Ok(total) => Ok(total),
        Err(error) => Err(
            DownloadError::Protocol(
                cat2("invalid Content-Range total: ", error.message().as_str()),
            ),
        ),
    }
}

/// What the `Content-Range` header says.
pub open spec fn content_range_of(headers: HeaderMap<HeaderValue>) -> Result<
    Option<ContentRange>,
    Seq<char>,
> {
    match header_text(headers, "content-range"@) {
        None => Ok(None),
        Some(Err(_)) => Err(
            "invalid Content-Range header: "@ + "failed to convert header to a str"@,
        ),
        Some(Ok(text)) => match range_value(text) {
            Ok(range) => Ok(Some(range)),
            Err(text) => Err(text),
        },
    }
}

/// Reads the `Content-Range` header.
pub fn content_range(headers: &HeaderMap<HeaderValue>) -> (result: Result<
    Option<ContentRange>,
    DownloadError,
>)
    ensures
        protocol_result(result, content_range_of(*headers)),
{
    match read_header(headers, "content-range") {
        HeaderRead::Absent => Ok(None),
        HeaderRead::Unreadable => Err(
            DownloadError::Protocol(
                cat2("invalid Content-Range header: ", "failed to convert header to a str"),
            ),
        ),
        HeaderRead::Text(text) => match parse_content_range(text.as_str()) {
            Ok(range) => Ok(Some(range)),
            Err(error) => Err(error),
        },
    }
}

/// What the `Content-Length` header says.
pub open spec fn content_length_of(headers: HeaderMap<HeaderValue>) -> Result<
    Option<u64>,
    Seq<char>,
> {
    match header_text(headers, "content-length"@) {
        None => Ok(None),
        Some(Err(_)) => Err(
            "invalid Content-Length header: "@ + "failed to convert header to a str"@,
        ),
        Some(Ok(text)) => match number_value(trimmed(text)) {
            Ok(length) => Ok(Some(length)),
            Err(error) => Err("invalid Content-Length: "@ + error.text()),
        },
    }
}

/// Reads the `Content-Length` header.
pub fn content_length(headers: &HeaderMap<HeaderValue>) -> (result: Result<
    Option<u64>,
    DownloadError,
>)
    ensures
        protocol_result(result, content_length_of(*headers)),
{
    match read_header(headers, "content-length") {
        HeaderRead::Absent => Ok(None),
        HeaderRead::Unreadable => Err(
            DownloadError::Protocol(
                cat2("invalid Content-Length header: ", "failed to convert header to a str"),
            ),
        ),
        HeaderRead::Text(text) => match parse_number(trim(text.as_str())) {
            Ok(length) => Ok(Some(length)),
            Err(error) => Err(
                DownloadError::Protocol(
                    cat2("invalid Content-Length: ", error.message().as_str()),
                ),
            ),
        },
    }
}

/// Whether byte offsets of the body mean offsets of the file.
pub open spec fn identity_of(headers: HeaderMap<HeaderValue>) -> Result<(), Seq<char>> {
    match header_text(headers, "content-encoding"@) {
        None => Ok(()),
        Some(Err(_)) => Err(
            "invalid Content-Encoding: "@ + "failed to convert header to a str"@,
        ),
        Some(Ok(text)) => if upper(trimmed(text)) == upper("identity"@) {
            Ok(())
        } else {
            Err("unexpected Content-Encoding "@ + text + "; byte ranges require identity"@)
        },
    }
}

/// Rejects encoded bodies: with compression, byte offsets lose their meaning.
pub fn ensure_identity(headers: &HeaderMap<HeaderValue>) -> (result: Result<(), DownloadError>)
    ensures
        protocol_result(result, identity_of(*headers)),
{
    match read_header(headers, "content-encoding") {
        HeaderRead::Absent => Ok(()),
        HeaderRead::Unreadable => Err(
            DownloadError::Protocol(
                cat2("invalid Content-Encoding: ", "failed to convert header to a str"),
            ),
        ),
        HeaderRead::Text(text) => {
            if same_ignoring_case(trim(text.as_str()), "identity") {
                Ok(())
            } else {
                Err(
                    DownloadError::Protocol(
                        cat3(
                            "unexpected Content-Encoding ",
                            text.as_str(),
                            "; byte ranges require identity",
                        ),
                    ),
                )
            }
        },
    }
}

/// The trimmed value of a readable header, unless it is empty.
pub open spec fn header_string_of(headers: HeaderMap<HeaderValue>, name: Seq<char>) -> Option<
    Seq<char>,
> {
    match header_text(headers, name) {
        Some(Ok(text)) => if trimmed(text).len() == 0 {
            None
        } else {
            Some(trimmed(text))
        },
        _ => None,
    }
}

/// Reads a header as trimmed text; absent, unreadable and empty are alike.
pub fn header_string(headers: &HeaderMap<HeaderValue>, name: &str) -> (value: Option<String>)
    ensures
        option_view(value) == header_string_of(*headers, name@),
{
    match read_header(headers, name) {
        HeaderRead::Text(text) => {
            let value: String = trim(text.as_str()).to_owned();
            if value.as_str().unicode_len() == 0 {
                None
            } else {
                Some(value)
            }
        },
        _ => None,
    }
}

/// The value of a header, if it is present and readable.
pub fn readable_header(headers: &HeaderMap<HeaderValue>, name: &str) -> (value: Option<String>)
    ensures
        match value {
            Some(text) => header_text(*headers, name@) == Some(Ok::<Seq<char>, ()>(text@)),
            None => !(header_text(*headers, name@) matches Some(Ok(_))),
        },
{
    match read_header(headers, name) {
        HeaderRead::Text(text) => Some(text),
        _ => None,
    }
}

/// Statuses worth another attempt: 408, 425, 429 and 5xx.
pub open spec fn retryable_status(status: u16) -> bool {
    status == 408 || status == 425 || status == 429 || 500 <= status <= 599
}

/// Whether a status is worth another attempt.
#[must_use]
pub fn is_retryable_status(status: u16) -> (retryable: bool)
    ensures
        retryable == retryable_status(status),
{
    status == 408 || status == 425 || status == 429 || (500 <= status && status <= 599)
}

/// The failure an unwanted status counts as.
pub fn status_error(status: u16) -> (error: DownloadError)
    ensures
        error == (DownloadError::Http { status, retryable: retryable_status(status) }),
{
    DownloadError::Http { status, retryable: is_retryable_status(status) }
}

/// Delay named by a `Retry-After` value at the instant `now`, counted in
/// nanoseconds since 1970-01-01; at most [`MAX_RETRY_AFTER`].
pub open spec fn delay_of(value: Seq<char>, date: Option<u64>, now: int) -> Option<int> {
    match number_value(value) {
        Ok(seconds) => Some(capped(seconds * SECOND)),
        Err(_) => match date {
            Some(seconds) => Some(
                capped(
                    if seconds * SECOND < now {
                        0
                    } else {
                        seconds * SECOND - now
                    },
                ),
            ),
            None => None,
        },
    }
}

pub open spec fn capped(delay: int) -> int {
    if delay > MAX_RETRY_AFTER {
        MAX_RETRY_AFTER as int
    } else {
        delay
    }
}

/// Delay that a trimmed `Retry-After` value asks for, given what it means as
/// an HTTP date.
pub fn delay_for(value: &str, date: Option<u64>, now: u128) -> (delay: Option<u64>)
    ensures
        match delay {
            Some(delay) => delay_of(value@, date, now as int) == Some(delay as int),
            None => delay_of(value@, date, now as int) is None,
        },
{
    match parse_number(value) {
        Ok(seconds) => {
            if seconds > 60 {
                Some(MAX_RETRY_AFTER)
            } else {
                Some(seconds * SECOND)
            }
        },
        Err(_) => match date {
            Some(seconds) => {
                let at: u128 = (seconds as u128) * (SECOND as u128);
                if at < now {
                    Some(0)
                } else if at - now > MAX_RETRY_AFTER as u128 {
                    Some(MAX_RETRY_AFTER)
                } else {
                    Some((at - now) as u64)
                }
            },
            None => None,
        },
    }
}

/// Reads `Retry-After`, given as seconds or as an HTTP date.
pub fn retry_after(headers: &HeaderMap<HeaderValue>, now: u128) -> (delay: Option<u64>)
    ensures
        delay matches Some(value) ==> value <= MAX_RETRY_AFTER,
        match header_text(*headers, "retry-after"@) {
            Some(Ok(text)) => match delay {
                Some(delay) => delay_of(trimmed(text), http_date(trimmed(text)), now as int)
                    == Some(delay as int),
                None => delay_of(trimmed(text), http_date(trimmed(text)), now as int) is None,
            },
            _ => delay is None,
        },
{
    match read_header(headers, "retry-after") {
        HeaderRead::Text(text) => {
            let value: &str = trim(text.as_str());
            delay_for(value, parse_http_date(value), now)
        },
        _ => None,
    }
}

proof fn digits_only(value: nat)
    ensures
        decimal(value).len() > 0,
        forall|i: int|
            0 <= i < decimal(value).len() ==> '0' <= #[trigger] decimal(value)[i] <= '9',
    decreases value,
{
    if value >= 10 {
        digits_only(value / 10);
    }
}

proof fn number_is_plain(value: u64)
    ensures
        trimmed(decimal(value as nat)) == decimal(value as nat),
        number_value(decimal(value as nat)) == Ok::<u64, NumberError>(value),
        decimal(value as nat) != "*"@,
        !decimal(value as nat).contains('/'),
        !decimal(value as nat).contains('-'),
{
    digits_only(value as nat);
    let text = decimal(value as nat);
    assert('0' <= text[0] <= '9');
    assert('0' <= text.last() <= '9');
    trimmed_is_same(text);
    decimal_round_trip(value);
    reveal_strlit("*");
    assert("*"@[0] == '*');
}

proof fn cut_at(head: Seq<char>, separator: char, tail: Seq<char>)
    requires
        !head.contains(separator),
    ensures
        cut(head + seq![separator] + tail, separator) == Some((head, tail)),
{
    let text = head + seq![separator] + tail;
    assert(text.take(head.len() as int) =~= head);
    assert(text.skip(head.len() as int + 1) =~= tail);
    first_at_is(text, separator, head.len() as int);
}

proof fn range_part(start: u64, end: u64)
    ensures
        ({
            let range = decimal(start as nat) + seq!['-'] + decimal(end as nat);
            &&& !range.contains('/')
            &&& trimmed(range) == range
            &&& range != "*"@
            &&& cut(range, '-') == Some((decimal(start as nat), decimal(end as nat)))
        }),
{
    let first = decimal(start as nat);
    let last = decimal(end as nat);
    let range = first + seq!['-'] + last;
    digits_only(start as nat);
    digits_only(end as nat);
    number_is_plain(start);
    number_is_plain(end);
    if range.contains('/') {
        let i = choose|i: int| 0 <= i < range.len() && range[i] == '/';
        if i < first.len() {
            assert(first[i] == '/');
        } else if i > first.len() {
            assert(last[i - first.len() - 1] == '/');
        }
    }
    assert(range[0] == first[0]);
    assert(range.last() == last.last());
    assert('0' <= first[0] <= '9');
    assert('0' <= last.last() <= '9');
    trimmed_is_same(range);
    cut_at(first, '-', last);
    reveal_strlit("*");
    assert("*"@[0] == '*');
}

proof fn unit_part(rest: Seq<char>)
    requires
        rest.len() > 0,
        !is_whitespace(rest.last()),
    ensures
        trimmed("bytes "@ + rest) == "bytes "@ + rest,
        range_body("bytes "@ + rest) == Some(rest),
{
    reveal_strlit("bytes ");
    let value = "bytes "@ + rest;
    assert(value[0] == 'b');
    assert(value.last() == rest.last());
    trimmed_is_same(value);
    assert("bytes "@ =~= value.subrange(0, 6));
    assert(value.skip(6) =~= rest);
}

/// A range header written as `bytes start-end/total` reads back as itself.
#[verifier::spinoff_prover]
#[verifier::rlimit(40)]
pub proof fn content_range_round_trip(start: u64, end: u64, total: u64)
    requires
        start <= end < total,
    ensures
        range_value(
            "bytes "@ + (decimal(start as nat) + seq!['-'] + decimal(end as nat) + seq!['/']
                + decimal(total as nat)),
        ) == Ok::<ContentRange, Seq<char>>(ContentRange { start, end, total: Some(total) }),
{
    let range = decimal(start as nat) + seq!['-'] + decimal(end as nat);
    let whole = decimal(total as nat);
    let rest = range + seq!['/'] + whole;
    digits_only(total as nat);
    assert(rest.last() == whole.last());
    assert('0' <= whole.last() <= '9');
    unit_part(rest);
    range_part(start, end);
    cut_at(range, '/', whole);
    number_is_plain(start);
    number_is_plain(end);
    number_is_plain(total);
}

/// A header value is text exactly if it holds nothing but tabs and the visible
/// ASCII characters from the blank to the tilde; the text is that of the bytes.
pub proof fn readable_values(bytes: Seq<u8>)
    ensures
        readable(bytes) <==> forall|i: int|
            0 <= i < bytes.len() ==> #[trigger] bytes[i] == 9 || 0x20 <= bytes[i] <= 0x7e,
        ascii_text(bytes).len() == bytes.len(),
        forall|i: int|
            0 <= i < bytes.len() ==> #[trigger] ascii_text(bytes)[i] as u32 == bytes[i] as u32,
{
}

/// The statuses worth another attempt are 408, 425, 429 and those from 500 to
/// 599; no other one is.
pub proof fn statuses_worth_another_attempt(status: u16)
    ensures
        retryable_status(status) <==> status == 408 || status == 425 || status == 429 || status
            / 100 == 5,
{
}

/// A byte range is accepted exactly if it reads `bytes a-b/N`, with blanks
/// around the parts at most, where `a` and `b` are numbers in order and `N` is
/// a greater number or an asterisk.
pub proof fn byte_ranges_are_read_as_written(raw: Seq<char>, range: ContentRange)
    ensures
        range_value(raw) == Ok::<ContentRange, Seq<char>>(range) <==> exists|
            unit: Seq<char>,
            start: Seq<char>,
            end: Seq<char>,
            total: Seq<char>,
        |
            #[trigger] spells_range(raw, unit, start, end, total, range),
{
    if range_value(raw) == Ok::<ContentRange, Seq<char>>(range) {
        accepted_ranges_are_spelled(raw, range);
    }
    if exists|unit: Seq<char>, start: Seq<char>, end: Seq<char>, total: Seq<char>|
        #[trigger] spells_range(raw, unit, start, end, total, range) {
        let (unit, start, end, total) = choose|
            unit: Seq<char>,
            start: Seq<char>,
            end: Seq<char>,
            total: Seq<char>,
        |
            #[trigger] spells_range(raw, unit, start, end, total, range);
        spelled_ranges_are_accepted(raw, unit, start, end, total, range);
    }
}

#[verifier::spinoff_prover]
#[verifier::rlimit(40)]
proof fn accepted_ranges_are_spelled(raw: Seq<char>, range: ContentRange)
    requires
        range_value(raw) == Ok::<ContentRange, Seq<char>>(range),
    ensures
        exists|unit: Seq<char>, start: Seq<char>, end: Seq<char>, total: Seq<char>|
            #[trigger] spells_range(raw, unit, start, end, total, range),
{
    let value = trimmed(raw);
    let rest = range_body(value)->Some_0;
    let unit = if "bytes "@.is_prefix_of(value) {
        "bytes "@
    } else {
        "bytes="@
    };
    crate::text::scan::prefix_and_rest(value, unit, rest);
    let (bounds, total) = cut(rest, '/')->Some_0;
    crate::text::scan::cut_at_the_first(rest, '/', bounds, total);
    let (start, end) = cut(bounds, '-')->Some_0;
    crate::text::scan::cut_at_the_first(bounds, '-', start, end);
    assert(value =~= unit + start + seq!['-'] + end + seq!['/'] + total);
    assert(!start.contains('/')) by {
        if start.contains('/') {
            let i = choose|i: int| 0 <= i < start.len() && start[i] == '/';
            assert(bounds[i] == '/');
        }
    }
    assert(!end.contains('/')) by {
        if end.contains('/') {
            let i = choose|i: int| 0 <= i < end.len() && end[i] == '/';
            assert(bounds[start.len() + 1 + i] == '/');
        }
    }
    assert(spells_range(raw, unit, start, end, total, range));
}

proof fn bounds_are_no_asterisk(start: Seq<char>, end: Seq<char>)
    ensures
        trimmed(start + seq!['-'] + end) != "*"@,
{
    let bounds = start + seq!['-'] + end;
    reveal_strlit("*");
    if trimmed(bounds) == "*"@ {
        crate::text::scan::trimming_is_exact(bounds);
        let (head, tail) = choose|head: Seq<char>, tail: Seq<char>|
            bounds == #[trigger] (head + trimmed(bounds) + tail) && (forall|i: int|
                0 <= i < head.len() ==> is_whitespace(#[trigger] head[i])) && forall|i: int|
                0 <= i < tail.len() ==> is_whitespace(#[trigger] tail[i]);
        let dash = start.len() as int;
        assert(bounds[dash] == '-');
        if dash < head.len() {
            assert(head[dash] == '-');
        } else if dash == head.len() {
            assert(bounds[dash] == "*"@[0]);
        } else {
            assert(tail[dash - head.len() - 1] == '-');
        }
    }
}

proof fn units_differ(unit: Seq<char>, rest: Seq<char>)
    requires
        unit == "bytes "@ || unit == "bytes="@,
    ensures
        range_body(unit + rest) == Some(rest),
{
    let value = unit + rest;
    reveal_strlit("bytes ");
    reveal_strlit("bytes=");
    crate::text::scan::prefix_and_rest(value, unit, rest);
    if unit == "bytes="@ && "bytes "@.is_prefix_of(value) {
        assert(value.subrange(0, 6)[5] == ' ');
        assert(value[5] == '=');
    }
}

#[verifier::spinoff_prover]
#[verifier::rlimit(40)]
proof fn spelled_ranges_are_accepted(
    raw: Seq<char>,
    unit: Seq<char>,
    start: Seq<char>,
    end: Seq<char>,
    total: Seq<char>,
    range: ContentRange,
)
    requires
        spells_range(raw, unit, start, end, total, range),
    ensures
        range_value(raw) == Ok::<ContentRange, Seq<char>>(range),
{
    let value = trimmed(raw);
    let bounds = start + seq!['-'] + end;
    let rest = bounds + seq!['/'] + total;
    assert(value =~= unit + rest);
    units_differ(unit, rest);
    assert(!bounds.contains('/')) by {
        if bounds.contains('/') {
            let i = choose|i: int| 0 <= i < bounds.len() && bounds[i] == '/';
            if i < start.len() {
                assert(start[i] == '/');
            } else if i > start.len() {
                assert(end[i - start.len() - 1] == '/');
            }
        }
    }
    crate::text::scan::cut_at_the_first(rest, '/', bounds, total);
    crate::text::scan::cut_at_the_first(bounds, '-', start, end);
    bounds_are_no_asterisk(start, end);
}

/// The value reads as a range: unit, first byte, last byte and total.
pub open spec fn spells_range(
    raw: Seq<char>,
    unit: Seq<char>,
    start: Seq<char>,
    end: Seq<char>,
    total: Seq<char>,
    range: ContentRange,
) -> bool {
    &&& unit == "bytes "@ || unit == "bytes="@
    &&& trimmed(raw) == unit + start + seq!['-'] + end + seq!['/'] + total
    &&& !start.contains('-')
    &&& !start.contains('/')
    &&& !end.contains('/')
    &&& number_value(trimmed(start)) == Ok::<u64, NumberError>(range.start)
    &&& number_value(trimmed(end)) == Ok::<u64, NumberError>(range.end)
    &&& range.start <= range.end
    &&& match range.total {
        None => trimmed(total) == "*"@,
        Some(count) => trimmed(total) != "*"@ && number_value(trimmed(total)) == Ok::<
            u64,
            NumberError,
        >(count) && range.end < count,
    }
}

/// The total of an unsatisfied range is read exactly from `bytes */N`.
pub proof fn unsatisfied_ranges_are_read_as_written(raw: Seq<char>, total: u64)
    ensures
        unsatisfied_value(raw) == Ok::<u64, Seq<char>>(total) <==> exists|text: Seq<char>|
            trimmed(raw) == "bytes "@ + "*/"@ + text && #[trigger] number_value(trimmed(text))
                == Ok::<u64, NumberError>(total),
{
    let value = trimmed(raw);
    if unsatisfied_value(raw) == Ok::<u64, Seq<char>>(total) {
        let rest = without_prefix(value, "bytes "@)->Some_0;
        crate::text::scan::prefix_and_rest(value, "bytes "@, rest);
        let text = without_prefix(rest, "*/"@)->Some_0;
        crate::text::scan::prefix_and_rest(rest, "*/"@, text);
        assert(value =~= "bytes "@ + "*/"@ + text);
        assert(number_value(trimmed(text)) == Ok::<u64, NumberError>(total));
    }
    if exists|text: Seq<char>|
        value == "bytes "@ + "*/"@ + text && #[trigger] number_value(trimmed(text)) == Ok::<
            u64,
            NumberError,
        >(total) {
        let text = choose|text: Seq<char>|
            value == "bytes "@ + "*/"@ + text && #[trigger] number_value(trimmed(text)) == Ok::<
                u64,
                NumberError,
            >(total);
        assert(value =~= "bytes "@ + ("*/"@ + text));
        crate::text::scan::prefix_and_rest(value, "bytes "@, "*/"@ + text);
        crate::text::scan::prefix_and_rest("*/"@ + text, "*/"@, text);
    }
}

/// What the headers of an answer say: a missing header says nothing, a
/// readable one what its text reads as. A body counts as plain exactly if no
/// encoding is named, or `identity` in any case.
pub proof fn headers_are_read_by_name(headers: HeaderMap<HeaderValue>, bytes: Seq<u8>)
    ensures
        !header_values(headers).dom().contains("content-encoding"@) ==> identity_of(headers) is Ok,
        header_values(headers).contains_pair("content-encoding"@, bytes) ==> (identity_of(headers)
            is Ok <==> readable(bytes) && upper(trimmed(ascii_text(bytes))) == upper("identity"@)),
        !header_values(headers).dom().contains("content-length"@) ==> content_length_of(headers)
            == Ok::<Option<u64>, Seq<char>>(None),
        header_values(headers).contains_pair("content-length"@, bytes) ==> forall|length: u64|
            (#[trigger] content_length_of(headers) == Ok::<Option<u64>, Seq<char>>(Some(length))
                <==> readable(bytes) && number_value(trimmed(ascii_text(bytes))) == Ok::<
                u64,
                NumberError,
            >(length)),
        !header_values(headers).dom().contains("content-range"@) ==> content_range_of(headers)
            == Ok::<Option<ContentRange>, Seq<char>>(None),
        header_values(headers).contains_pair("content-range"@, bytes) ==> forall|
            range: ContentRange,
        |
            (#[trigger] content_range_of(headers) == Ok::<Option<ContentRange>, Seq<char>>(
                Some(range),
            ) <==> readable(bytes) && range_value(ascii_text(bytes)) == Ok::<
                ContentRange,
                Seq<char>,
            >(range)),
{
}

/// A header counts as a text exactly if it is readable and not blank, and
/// then without the blanks around it.
pub proof fn blank_headers_are_none(
    headers: HeaderMap<HeaderValue>,
    name: Seq<char>,
    bytes: Seq<u8>,
)
    ensures
        !header_values(headers).dom().contains(name) ==> header_string_of(headers, name) is None,
        header_values(headers).contains_pair(name, bytes) ==> (header_string_of(headers, name)
            is Some <==> readable(bytes) && trimmed(ascii_text(bytes)).len() > 0),
        header_values(headers).contains_pair(name, bytes) && header_string_of(headers, name) is Some
            ==> header_string_of(headers, name) == Some(trimmed(ascii_text(bytes))),
{
}

/// A wait that the server asks for is what it asks for, in seconds or until a
/// date, but never longer than a minute and never below zero. What is neither
/// a number nor a date asks for nothing.
pub proof fn waits_are_capped_at_a_minute(value: Seq<char>, date: Option<u64>, now: int)
    ensures
        delay_of(value, date, now) is None <==> number_value(value) is Err && date is None,
        delay_of(value, date, now) matches Some(delay) ==> 0 <= delay <= 60_000_000_000,
        number_value(value) matches Ok(seconds) ==> delay_of(value, date, now) == Some(
            if seconds > 60 {
                60_000_000_000int
            } else {
                seconds * 1_000_000_000
            },
        ),
        number_value(value) is Err && date is Some && date->Some_0 * 1_000_000_000 <= now
            ==> delay_of(value, date, now) == Some(0int),
        number_value(value) is Err && date is Some && 0 <= date->Some_0 * 1_000_000_000 - now
            <= 60_000_000_000 ==> delay_of(value, date, now) == Some(
            date->Some_0 * 1_000_000_000 - now,
        ),
{
}

} // verus!
