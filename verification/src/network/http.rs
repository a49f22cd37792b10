//! Requests for byte ranges over HTTP, and what is taken of the answers.

use std::ops::Range;

use ureq::http::HeaderMap;
use vstd::prelude::*;
use vstd::utf8::{encode_utf8, is_ascii_chars, is_ascii_chars_encode_utf8};

use super::cache::{ConfigView, RangeCacheConfig};
use super::content_range::{
    content_range, lemma_decimal_digits, parse_content_range, ParsedContentRange,
};
use super::error::{NetworkError, Result};
use crate::text::{decimal, decimal_text};

verus! {

/// The character may stand in the name of a header.
pub open spec fn is_token_char(c: char) -> bool {
    ||| 'a' <= c <= 'z'
    ||| 'A' <= c <= 'Z'
    ||| '0' <= c <= '9'
    ||| c == '!' || c == '#' || c == '$' || c == '%' || c == '&' || c == '\''
    ||| c == '*' || c == '+' || c == '-' || c == '.' || c == '^' || c == '_'
    ||| c == '`' || c == '|' || c == '~'
}

/// The text is the name of a header.
pub open spec fn is_header_name(name: Seq<char>) -> bool {
    &&& 0 < name.len() <= 65_535
    &&& forall|i: int| 0 <= i < name.len() ==> is_token_char(#[trigger] name[i])
}

/// A letter of the ASCII alphabet in lower case, and any other character as it
/// is.
pub open spec fn lower(c: char) -> char {
    if 'A' <= c <= 'Z' {
        (c as int + 32) as char
    } else {
        c
    }
}

/// A text in lower case.
pub open spec fn lowered(text: Seq<char>) -> Seq<char> {
    text.map_values(|c: char| lower(c))
}

/// The bytes may be the value of a header: there is no control character in
/// them, but for the tab.
pub open spec fn is_header_value(value: Seq<u8>) -> bool {
    forall|i: int|
        0 <= i < value.len() ==> #[trigger] value[i] == 9 || value[i] >= 32 && value[i] != 127
}

/// `http::HeaderName::from_bytes` and its `as_str`: the name in lower case, if it
/// is the name of a header.
#[verifier::external_body]
fn header_name(name: &str) -> (normalized: Option<String>)
    ensures
        match normalized {
            Some(text) => is_header_name(name@) && text@ == lowered(name@),
            None => !is_header_name(name@),
        },
{
    ureq::http::HeaderName::from_bytes(name.as_bytes()).ok().map(
        |name| String::from(name.as_str()),
    )
}

/// `http::HeaderValue::from_str` takes texts without control characters, but for
/// the tab.
#[verifier::external_body]
fn takes_header_value(value: &str) -> (taken: bool)
    ensures
        taken == is_header_value(encode_utf8(value@)),
{
    ureq::http::HeaderValue::from_str(value).is_ok()
}

/// The value of a header.
#[verifier::external_type_specification]
#[verifier::external_body]
pub struct ExHeaderValue(ureq::http::HeaderValue);

/// A map from the names of headers to their values.
#[verifier::external_type_specification]
#[verifier::external_body]
#[verifier::reject_recursive_types(T)]
pub struct ExHeaderMap<T>(ureq::http::HeaderMap<T>);

/// The names in a map of headers, in lower case, and the values of each in the
/// order in which they were appended.
pub uninterp spec fn fields(headers: HeaderMap) -> Map<Seq<char>, Seq<Seq<u8>>>;

/// `http::HeaderMap::new`: a map without headers.
#[verifier::external_body]
fn no_headers() -> (headers: HeaderMap)
    ensures
        fields(headers).dom() == Set::<Seq<char>>::empty(),
{
    HeaderMap::new()
}

/// The headers with one more value of a name.
pub open spec fn appended(
    headers: Map<Seq<char>, Seq<Seq<u8>>>,
    name: Seq<char>,
    value: Seq<u8>,
) -> Map<Seq<char>, Seq<Seq<u8>>> {
    headers.insert(
        name,
        if headers.contains_key(name) {
            headers[name].push(value)
        } else {
            seq![value]
        },
    )
}

/// How many names a map of headers holds for certain. Its hash table has at most
/// 32,768 places, and a fifth of them can always be used.
pub const MAX_HEADER_NAMES: usize = 6_553;

/// `http::HeaderMap::append`: the value comes after the others of its name, which
/// is found by its lower case.
#[verifier::external_body]
fn append_header(headers: &mut HeaderMap, name: &str, value: &[u8])
    requires
        is_header_name(name@),
        is_header_value(value@),
        fields(*old(headers)).dom().finite(),
        fields(*old(headers)).dom().len() < MAX_HEADER_NAMES,
    ensures
        fields(*final(headers)) == appended(fields(*old(headers)), lowered(name@), value@),
{
    headers.append(
        ureq::http::HeaderName::from_bytes(name.as_bytes()).unwrap(),
        ureq::http::HeaderValue::from_bytes(value).unwrap(),
    );
}

/// `http::HeaderMap::clone`: a map of the same headers.
#[verifier::external_body]
fn copy_headers(headers: &HeaderMap) -> (copy: HeaderMap)
    ensures
        fields(copy) == fields(*headers),
{
    headers.clone()
}

/// `http::HeaderMap::get` with a name in lower case: the first value of the name.
#[verifier::external_body]
fn find_header(headers: &HeaderMap, name: &str) -> (value: Option<Vec<u8>>)
    requires
        is_header_name(name@),
        lowered(name@) == name@,
    ensures
        match value {
            Some(value) => header_of(fields(*headers), name@) == Some(value@) && is_header_value(
                value@,
            ),
            None => header_of(fields(*headers), name@) is None,
        },
{
    headers.get(name).map(|value| value.as_bytes().to_vec())
}

/// The first value of a name.
pub open spec fn header_of(headers: Map<Seq<char>, Seq<Seq<u8>>>, name: Seq<char>) -> Option<
    Seq<u8>,
> {
    if headers.contains_key(name) {
        Some(headers[name][0])
    } else {
        None
    }
}

/// The header that tells the version of an object.
#[derive(Debug)]
pub struct Validator {
    /// The name, in lower case.
    pub name: String,
    pub value: Vec<u8>,
}

/// The header that tells the version of an object, as mathematics.
pub struct ValidatorView {
    pub name: Seq<char>,
    pub value: Seq<u8>,
}

impl View for Validator {
    type V = ValidatorView;

    open spec fn view(&self) -> ValidatorView {
        ValidatorView { name: self.name@, value: self.value@ }
    }
}

fn same_text(text: &String, literal: &str) -> (same: bool)
    ensures
        same == (text@ == literal@),
{
    *text == String::from_str(literal)
}

fn same_bytes(first: &[u8], second: &[u8]) -> (same: bool)
    ensures
        same == (first@ == second@),
{
    if first.len() != second.len() {
        return false;
    }
    let mut index: usize = 0;
    while index < first.len()
        invariant
            index <= first@.len() == second@.len(),
            forall|i: int| 0 <= i < index ==> #[trigger] first@[i] == second@[i],
        decreases first@.len() - index,
    {
        if first[index] != second[index] {
            return false;
        }
        index = index + 1;
    }
    assert(first@ =~= second@);
    true
}

/// Headers that requests have on their own account.
pub open spec fn is_managed(name: Seq<char>) -> bool {
    name == "range"@ || name == "if-range"@ || name == "accept-encoding"@
}

fn reject_managed_header(name: &String) -> (result: Result<()>)
    ensures
        result == if is_managed(name@) {
            Err::<(), NetworkError>(
                NetworkError::InvalidInput(
                    "Range, If-Range, and Accept-Encoding are managed by decv-network",
                ),
            )
        } else {
            Ok(())
        },
{
    if same_text(name, "range") || same_text(name, "if-range") || same_text(
        name,
        "accept-encoding",
    ) {
        Err(
            NetworkError::InvalidInput(
                "Range, If-Range, and Accept-Encoding are managed by decv-network",
            ),
        )
    } else {
        Ok(())
    }
}

/// Builder for a strict, cached HTTP byte-range media input.
///
/// Opening performs one `bytes=0-0` request to discover and validate the stable
/// object length. Servers that ignore ranges are rejected.
pub struct HttpRangeInputBuilder {
    url: String,
    headers: HeaderMap,
    cache_config: RangeCacheConfig,
}

/// A builder as mathematics.
pub struct BuilderView {
    pub url: Seq<char>,
    pub headers: Map<Seq<char>, Seq<Seq<u8>>>,
    pub cache_config: ConfigView,
}

impl View for HttpRangeInputBuilder {
    type V = BuilderView;

    closed spec fn view(&self) -> BuilderView {
        BuilderView {
            url: self.url@,
            headers: fields(self.headers),
            cache_config: self.cache_config@,
        }
    }
}

/// Why a header is refused.
pub open spec fn header_error(name: Seq<char>, value: Seq<char>) -> Option<NetworkError> {
    if !is_header_name(name) {
        Some(NetworkError::InvalidInput("invalid HTTP header name"))
    } else if !is_header_value(encode_utf8(value)) {
        Some(NetworkError::InvalidInput("invalid HTTP header value"))
    } else if is_managed(lowered(name)) {
        Some(
            NetworkError::InvalidInput(
                "Range, If-Range, and Accept-Encoding are managed by decv-network",
            ),
        )
    } else {
        None
    }
}

/// None of the headers is one that requests have on their own account.
pub open spec fn unmanaged(headers: Map<Seq<char>, Seq<Seq<u8>>>) -> bool {
    forall|name: Seq<char>| #[trigger] headers.contains_key(name) ==> !is_managed(name)
}

/// How many names a builder takes, so that there is room for the headers that
/// requests have on their own account.
pub const MAX_OWN_NAMES: usize = 6_550;

impl HttpRangeInputBuilder {
    #[verifier::type_invariant]
    spec fn leaves_ranges_alone(self) -> bool {
        &&& unmanaged(fields(self.headers))
        &&& fields(self.headers).dom().finite()
        &&& fields(self.headers).dom().len() <= MAX_OWN_NAMES
    }

    pub fn new(url: String) -> (builder: Self)
        ensures
            builder@ == (BuilderView {
                url: url@,
                headers: Map::empty(),
                cache_config: ConfigView { block_size: 262_144, maximum_blocks: 32 },
            }),
    {
        let headers = no_headers();
        assert(fields(headers) =~= Map::empty());
        HttpRangeInputBuilder { url, headers, cache_config: RangeCacheConfig::default() }
    }

    /// Adds a header to every metadata and range request.
    ///
    /// `Range`, `If-Range`, and `Accept-Encoding` are controlled internally so
    /// response validation cannot be bypassed.
    pub fn header(self, name: &str, value: &str) -> (result: Result<Self>)
        requires
            self@.headers.contains_key(lowered(name@)) || self@.headers.dom().len()
                < MAX_OWN_NAMES,
        ensures
            match header_error(name@, value@) {
                Some(error) => result matches Err(found) && found == error,
                None => result matches Ok(builder) && builder@ == (BuilderView {
                    headers: appended(self@.headers, lowered(name@), encode_utf8(value@)),
                    ..self@
                }),
            },
    {
        let normalized = match header_name(name) {
            Some(normalized) => normalized,
            None => return Err(NetworkError::InvalidInput("invalid HTTP header name")),
        };
        if !takes_header_value(value) {
            return Err(NetworkError::InvalidInput("invalid HTTP header value"));
        }
        reject_managed_header(&normalized)?;
        proof {
            use_type_invariant(&self);
        }
        let mut headers = self.headers;
        append_header(&mut headers, name, value.as_bytes());
        Ok(HttpRangeInputBuilder { url: self.url, headers, cache_config: self.cache_config })
    }

    pub fn cache_config(self, cache_config: RangeCacheConfig) -> (builder: Self)
        ensures
            builder@ == (BuilderView { cache_config: cache_config@, ..self@ }),
    {
        proof {
            use_type_invariant(&self);
        }
        HttpRangeInputBuilder { url: self.url, headers: self.headers, cache_config }
    }

    /// Where the object is.
    pub fn url(&self) -> (url: &String)
        ensures
            url@ == self@.url,
    {
        &self.url
    }

    /// The headers of every request.
    pub fn headers(&self) -> (headers: &HeaderMap)
        ensures
            fields(*headers) == self@.headers,
            unmanaged(self@.headers),
    {
        proof {
            use_type_invariant(self);
        }
        &self.headers
    }

    /// How much is cached.
    pub fn configured_cache(&self) -> (config: RangeCacheConfig)
        ensures
            config@ == self@.cache_config,
    {
        self.cache_config
    }

    /// The headers of a request for a range: those of every request, and those
    /// that ask for the range of one version without an encoding.
    pub fn request_headers(&self, range: Range<u64>, object: Option<&HttpObject>) -> (result:
        Result<HeaderMap>)
        ensures
            if range.end == 0 {
                result matches Err(error) && error == NetworkError::InvalidInput(
                    "HTTP range is empty",
                )
            } else {
                result matches Ok(headers) && fields(headers) == request_fields(
                    self@.headers,
                    range.start,
                    range.end,
                    match object {
                        Some(object) => object@.validator,
                        None => None,
                    },
                )
            },
    {
        proof {
            use_type_invariant(self);
        }
        if range.end == 0 {
            return Err(NetworkError::InvalidInput("HTTP range is empty"));
        }
        let mut range_text: String = String::from_str("bytes=");
        range_text.append(decimal_text(range.start).as_str());
        range_text.append("-");
        range_text.append(decimal_text(range.end - 1).as_str());
        proof {
            lemma_managed_names();
            lemma_range_text(range.start, range.end);
            reveal_strlit("identity");
            lemma_visible_value("identity"@);
        }
        let mut headers = copy_headers(&self.headers);
        append_header(&mut headers, "accept-encoding", "identity".as_bytes());
        append_header(&mut headers, "range", range_text.as_str().as_bytes());
        if let Some(object) = object {
            proof {
                use_type_invariant(object);
            }
            if let Some(validator) = &object.validator {
                append_header(&mut headers, "if-range", validator.value.as_slice());
            }
        }
        Ok(headers)
    }
}

/// The byte is a visible ASCII character, a space or a tab.
pub open spec fn is_visible(byte: u8) -> bool {
    32 <= byte < 127 || byte == 9
}

/// The text of a header value, if all of it is visible.
pub open spec fn visible_text(value: Seq<u8>) -> Option<Seq<char>> {
    if forall|i: int| 0 <= i < value.len() ==> is_visible(#[trigger] value[i]) {
        Some(value.map_values(|byte: u8| byte as char))
    } else {
        None
    }
}

fn to_text(value: &Vec<u8>) -> (text: Option<String>)
    ensures
        match (text, visible_text(value@)) {
            (Some(text), Some(wanted)) => text@ == wanted,
            (None, None) => true,
            _ => false,
        },
{
    let ghost whole = value@.map_values(|byte: u8| byte as char);
    let mut text: String = String::new();
    let mut index: usize = 0;
    assert(text@ =~= whole.take(0));
    while index < value.len()
        invariant
            index <= value@.len(),
            whole == value@.map_values(|byte: u8| byte as char),
            forall|i: int| 0 <= i < index ==> is_visible(#[trigger] value@[i]),
            text@ == whole.take(index as int),
        decreases value@.len() - index,
    {
        let byte: u8 = value[index];
        if !(32 <= byte && byte < 127 || byte == 9) {
            return None;
        }
        text.push(byte as char);
        index = index + 1;
        assert(text@ =~= whole.take(index as int));
    }
    assert(text@ =~= whole);
    Some(text)
}

/// Why the encoding of an answer is not taken.
pub open spec fn encoding_error(headers: Map<Seq<char>, Seq<Seq<u8>>>) -> Option<NetworkError> {
    match header_of(headers, "content-encoding"@) {
        None => None,
        Some(value) => match visible_text(value) {
            None => Some(
                NetworkError::InvalidResponse(
                    "response contains an invalid Content-Encoding header",
                ),
            ),
            Some(text) => if lowered(text) == "identity"@ {
                None
            } else {
                Some(
                    NetworkError::InvalidResponse(
                        "HTTP range response uses a non-identity content encoding",
                    ),
                )
            },
        },
    }
}

/// A result without a value that has an error exactly where one is expected.
pub open spec fn refuses(result: Result<()>, expected: Option<NetworkError>) -> bool {
    match (result, expected) {
        (Ok(_), None) => true,
        (Err(error), Some(wanted)) => error == wanted,
        _ => false,
    }
}

fn lower_text(text: &str) -> (result: String)
    ensures
        result@ == lowered(text@),
{
    let chars = crate::text::chars_of(text);
    let mut result: String = String::new();
    let mut index: usize = 0;
    assert(result@ =~= lowered(text@).take(0));
    while index < chars.len()
        invariant
            index <= chars@.len(),
            chars@ == text@,
            result@ == lowered(text@).take(index as int),
        decreases chars@.len() - index,
    {
        let c: char = chars[index];
        let small: char = if 'A' <= c && c <= 'Z' {
            (c as u8 + 32) as char
        } else {
            c
        };
        result.push(small);
        index = index + 1;
        assert(result@ =~= lowered(text@).take(index as int));
    }
    assert(result@ =~= lowered(text@));
    result
}

fn validate_content_encoding(headers: &HeaderMap) -> (result: Result<()>)
    ensures
        refuses(result, encoding_error(fields(*headers))),
{
    proof {
        lemma_response_names();
    }
    match find_header(headers, "content-encoding") {
        None => Ok(()),
        Some(value) => match to_text(&value) {
            None => Err(
                NetworkError::InvalidResponse(
                    "response contains an invalid Content-Encoding header",
                ),
            ),
            Some(text) => if same_text(&lower_text(text.as_str()), "identity") {
                Ok(())
            } else {
                Err(
                    NetworkError::InvalidResponse(
                        "HTTP range response uses a non-identity content encoding",
                    ),
                )
            },
        },
    }
}

/// Why the status of an answer is not taken: only partial content is.
pub open spec fn status_error(status: u16, conditional: bool) -> Option<NetworkError> {
    if status == 206 {
        None
    } else if conditional && status == 200 {
        Some(NetworkError::InvalidResponse("remote media object changed while reading ranges"))
    } else {
        Some(
            NetworkError::InvalidResponse(
                "server does not provide a valid HTTP partial-content response",
            ),
        )
    }
}

fn require_partial_content(status: u16, conditional: bool) -> (result: Result<()>)
    ensures
        refuses(result, status_error(status, conditional)),
{
    if status == 206 {
        return Ok(());
    }
    if conditional && status == 200 {
        return Err(
            NetworkError::InvalidResponse("remote media object changed while reading ranges"),
        );
    }
    Err(
        NetworkError::InvalidResponse(
            "server does not provide a valid HTTP partial-content response",
        ),
    )
}

/// The range that an answer says it returns.
pub open spec fn returned_range(headers: Map<Seq<char>, Seq<Seq<u8>>>) -> Result<ParsedContentRange> {
    match header_of(headers, "content-range"@) {
        None => Err(
            NetworkError::InvalidResponse("HTTP range response is missing Content-Range"),
        ),
        Some(value) => match visible_text(value) {
            None => Err(
                NetworkError::InvalidResponse("HTTP range response has an invalid Content-Range"),
            ),
            Some(text) => content_range(text),
        },
    }
}

fn parse_response_content_range(headers: &HeaderMap) -> (result: Result<ParsedContentRange>)
    ensures
        result == returned_range(fields(*headers)),
{
    proof {
        lemma_response_names();
    }
    match find_header(headers, "content-range") {
        None => Err(
            NetworkError::InvalidResponse("HTTP range response is missing Content-Range"),
        ),
        Some(value) => match to_text(&value) {
            None => Err(
                NetworkError::InvalidResponse("HTTP range response has an invalid Content-Range"),
            ),
            Some(text) => parse_content_range(text.as_str()),
        },
    }
}

/// What tells one version of an object from another: its strong entity tag, or
/// else when it was last modified.
pub open spec fn validator_of(headers: Map<Seq<char>, Seq<Seq<u8>>>) -> Option<ValidatorView> {
    let etag = header_of(headers, "etag"@);
    let modified = header_of(headers, "last-modified"@);
    if etag is Some && !is_weak(etag->0) {
        Some(ValidatorView { name: "etag"@, value: etag->0 })
    } else if modified is Some {
        Some(ValidatorView { name: "last-modified"@, value: modified->0 })
    } else {
        None
    }
}

/// An entity tag begins with `W/`.
pub open spec fn is_weak(value: Seq<u8>) -> bool {
    value.len() >= 2 && value[0] == 0x57 && value[1] == 0x2f
}

/// What tells the version of an object, if anything does, as mathematics.
pub open spec fn optional_view(validator: Option<Validator>) -> Option<ValidatorView> {
    match validator {
        Some(validator) => Some(validator@),
        None => None,
    }
}

fn response_validator(headers: &HeaderMap) -> (validator: Option<Validator>)
    ensures
        optional_view(validator) == validator_of(fields(*headers)),
        validator matches Some(validator) ==> is_header_value(validator.value@)
            && is_header_name(validator.name@) && lowered(validator.name@) == validator.name@,
{
    proof {
        lemma_response_names();
    }
    if let Some(value) = find_header(headers, "etag") {
        if !(value.len() >= 2 && value[0] == 0x57 && value[1] == 0x2f) {
            return Some(Validator { name: String::from_str("etag"), value });
        }
    }
    match find_header(headers, "last-modified") {
        Some(value) => Some(Validator { name: String::from_str("last-modified"), value }),
        None => None,
    }
}

/// The status and the headers of an answer.
#[derive(Debug)]
pub struct ResponseHead {
    pub status: u16,
    pub headers: HeaderMap,
}

/// The status and the headers of an answer as mathematics.
pub struct HeadView {
    pub status: u16,
    pub headers: Map<Seq<char>, Seq<Seq<u8>>>,
}

impl View for ResponseHead {
    type V = HeadView;

    open spec fn view(&self) -> HeadView {
        HeadView { status: self.status, headers: fields(self.headers) }
    }
}

/// What is known of a remote object: how long it is, and what tells its version.
#[derive(Debug)]
pub struct HttpObject {
    content_length: u64,
    validator: Option<Validator>,
}

/// What is known of a remote object, as mathematics.
pub struct ObjectView {
    pub content_length: u64,
    pub validator: Option<ValidatorView>,
}

impl View for HttpObject {
    type V = ObjectView;

    closed spec fn view(&self) -> ObjectView {
        ObjectView {
            content_length: self.content_length,
            validator: optional_view(self.validator),
        }
    }
}

/// What the answer to a request for the first byte says of the object.
pub open spec fn probed(head: HeadView) -> Result<ObjectView> {
    match encoding_error(head.headers) {
        Some(error) => Err(error),
        None => match status_error(head.status, false) {
            Some(error) => Err(error),
            None => match returned_range(head.headers) {
                Err(error) => Err(error),
                Ok(range) => if range.start != 0 || range.end != 1 {
                    Err(
                        NetworkError::InvalidResponse(
                            "metadata response did not contain the requested byte",
                        ),
                    )
                } else {
                    Ok(
                        ObjectView {
                            content_length: range.total,
                            validator: validator_of(head.headers),
                        },
                    )
                },
            },
        },
    }
}

/// Why a range is not asked for.
pub open spec fn request_error(object: ObjectView, start: u64, end: u64) -> Option<NetworkError> {
    if start >= end || end > object.content_length {
        Some(
            NetworkError::InvalidInput("HTTP byte range is outside the known media length"),
        )
    } else {
        None
    }
}

/// Why an answer is of another version of the object.
pub open spec fn version_error(object: ObjectView, headers: Map<Seq<char>, Seq<Seq<u8>>>) -> Option<
    NetworkError,
> {
    match object.validator {
        None => None,
        Some(validator) => match header_of(headers, validator.name) {
            None => None,
            Some(value) => if value == validator.value {
                None
            } else {
                Some(
                    NetworkError::InvalidResponse(
                        "remote media object changed while reading ranges",
                    ),
                )
            },
        },
    }
}

/// Why the answer to a request for a range is not taken.
pub open spec fn response_error(object: ObjectView, start: u64, end: u64, head: HeadView) -> Option<
    NetworkError,
> {
    match encoding_error(head.headers) {
        Some(error) => Some(error),
        None => match status_error(head.status, object.validator is Some) {
            Some(error) => Some(error),
            None => match returned_range(head.headers) {
                Err(error) => Some(error),
                Ok(range) => if range != (ParsedContentRange {
                    start,
                    end,
                    total: object.content_length,
                }) {
                    Some(
                        NetworkError::InvalidResponse(
                            "server returned bytes for a different range or object length",
                        ),
                    )
                } else {
                    version_error(object, head.headers)
                },
            },
        },
    }
}

/// How a range is asked for.
pub open spec fn range_text(start: u64, end: u64) -> Seq<char> {
    "bytes="@ + decimal(start as nat) + "-"@ + decimal((end - 1) as nat)
}

/// The headers of a request for a range.
pub open spec fn request_fields(
    headers: Map<Seq<char>, Seq<Seq<u8>>>,
    start: u64,
    end: u64,
    validator: Option<ValidatorView>,
) -> Map<Seq<char>, Seq<Seq<u8>>> {
    let asked = headers.insert("accept-encoding"@, seq![encode_utf8("identity"@)]).insert(
        "range"@,
        seq![encode_utf8(range_text(start, end))],
    );
    match validator {
        None => asked,
        Some(validator) => asked.insert("if-range"@, seq![validator.value]),
    }
}

/// Visible ASCII characters make the value of a header.
proof fn lemma_visible_value(text: Seq<char>)
    requires
        forall|i: int| 0 <= i < text.len() ==> ' ' <= #[trigger] text[i] <= '~',
    ensures
        is_header_value(encode_utf8(text)),
{
    assert(is_ascii_chars(text));
    is_ascii_chars_encode_utf8(text);
    let bytes = encode_utf8(text);
    assert forall|i: int| 0 <= i < bytes.len() implies #[trigger] bytes[i] == 9 || bytes[i] >= 32
        && bytes[i] != 127 by {
        assert(' ' <= text[i] <= '~');
    }
}

proof fn lemma_range_text(start: u64, end: u64)
    requires
        end > 0,
    ensures
        is_header_value(encode_utf8(range_text(start, end))),
{
    reveal_strlit("bytes=");
    reveal_strlit("-");
    lemma_decimal_digits(start as nat);
    lemma_decimal_digits((end - 1) as nat);
    let text = range_text(start, end);
    let first = decimal(start as nat);
    let last = decimal((end - 1) as nat);
    assert forall|i: int| 0 <= i < text.len() implies ' ' <= #[trigger] text[i] <= '~' by {
        if i < 6 {
            assert(text[i] == "bytes="@[i]);
        } else if i < 6 + first.len() {
            assert(text[i] == first[i - 6]);
        } else if i == 6 + first.len() {
            assert(text[i] == '-');
        } else {
            assert(text[i] == last[i - 7 - first.len()]);
        }
    }
    lemma_visible_value(text);
}

/// Letters in lower case and hyphens make the name of a header.
proof fn lemma_plain_name(name: Seq<char>)
    requires
        0 < name.len() <= 100,
        forall|i: int|
            0 <= i < name.len() ==> 'a' <= #[trigger] name[i] <= 'z' || name[i] == '-',
    ensures
        is_header_name(name),
        lowered(name) == name,
{
    assert(lowered(name) =~= name);
}

proof fn lemma_managed_names()
    ensures
        is_header_name("accept-encoding"@),
        is_header_name("range"@),
        is_header_name("if-range"@),
        lowered("accept-encoding"@) == "accept-encoding"@,
        lowered("range"@) == "range"@,
        lowered("if-range"@) == "if-range"@,
        "accept-encoding"@ != "range"@,
        "accept-encoding"@ != "if-range"@,
        "range"@ != "if-range"@,
{
    reveal_strlit("accept-encoding");
    reveal_strlit("range");
    reveal_strlit("if-range");
    lemma_plain_name("accept-encoding"@);
    lemma_plain_name("range"@);
    lemma_plain_name("if-range"@);
    assert("accept-encoding"@.len() == 15 && "range"@.len() == 5 && "if-range"@.len() == 8);
}

proof fn lemma_response_names()
    ensures
        is_header_name("content-encoding"@),
        is_header_name("content-range"@),
        is_header_name("etag"@),
        is_header_name("last-modified"@),
        lowered("content-encoding"@) == "content-encoding"@,
        lowered("content-range"@) == "content-range"@,
        lowered("etag"@) == "etag"@,
        lowered("last-modified"@) == "last-modified"@,
{
    reveal_strlit("content-encoding");
    reveal_strlit("content-range");
    reveal_strlit("etag");
    reveal_strlit("last-modified");
    lemma_plain_name("content-encoding"@);
    lemma_plain_name("content-range"@);
    lemma_plain_name("etag"@);
    lemma_plain_name("last-modified"@);
}

/// Why a body is not taken.
pub fn check_body(returned: usize, expected: usize) -> (result: Result<()>)
    ensures
        result == if returned == expected {
            Ok::<(), NetworkError>(())
        } else {
            Err(
                NetworkError::InvalidResponse(
                    "HTTP range response body length does not match Content-Range",
                ),
            )
        },
{
    if returned != expected {
        return Err(
            NetworkError::InvalidResponse(
                "HTTP range response body length does not match Content-Range",
            ),
        );
    }
    Ok(())
}

impl HttpObject {
    #[verifier::type_invariant]
    spec fn sends_its_validator(self) -> bool {
        self.validator matches Some(validator) ==> is_header_value(validator.value@)
            && is_header_name(validator.name@) && lowered(validator.name@) == validator.name@
    }

    /// What the answer to a request for the first byte says of the object.
    pub fn probe(head: &ResponseHead) -> (result: Result<Self>)
        ensures
            match (result, probed(head@)) {
                (Ok(object), Ok(wanted)) => object@ == wanted && object@.content_length > 0,
                (Err(error), Err(wanted)) => error == wanted,
                _ => false,
            },
    {
        validate_content_encoding(&head.headers)?;
        require_partial_content(head.status, false)?;
        let range = parse_response_content_range(&head.headers)?;
        if range.start != 0 || range.end != 1 {
            return Err(
                NetworkError::InvalidResponse(
                    "metadata response did not contain the requested byte",
                ),
            );
        }
        if range.total == 0 {
            return Err(NetworkError::InvalidResponse("remote media object is empty"));
        }
        Ok(
            HttpObject {
                content_length: range.total,
                validator: response_validator(&head.headers),
            },
        )
    }

    pub fn content_length(&self) -> (length: u64)
        ensures
            length == self@.content_length,
    {
        self.content_length
    }

    /// What tells the version of the object.
    pub fn validator(&self) -> (validator: Option<&Validator>)
        ensures
            match (validator, self@.validator) {
                (Some(validator), Some(wanted)) => validator@ == wanted,
                (None, None) => true,
                _ => false,
            },
    {
        match &self.validator {
            Some(validator) => Some(validator),
            None => None,
        }
    }

    /// Refuses a range that is empty or not inside the object.
    pub fn check_request(&self, range: Range<u64>) -> (result: Result<()>)
        ensures
            refuses(result, request_error(self@, range.start, range.end)),
    {
        if range.start >= range.end || range.end > self.content_length {
            return Err(
                NetworkError::InvalidInput("HTTP byte range is outside the known media length"),
            );
        }
        Ok(())
    }

    fn validate_version(&self, headers: &HeaderMap) -> (result: Result<()>)
        ensures
            refuses(result, version_error(self@, fields(*headers))),
    {
        proof {
            use_type_invariant(self);
        }
        match &self.validator {
            None => Ok(()),
            Some(expected) => match find_header(headers, expected.name.as_str()) {
                None => Ok(()),
                Some(actual) => if same_bytes(actual.as_slice(), expected.value.as_slice()) {
                    Ok(())
                } else {
                    Err(
                        NetworkError::InvalidResponse(
                            "remote media object changed while reading ranges",
                        ),
                    )
                },
            },
        }
    }

    /// Refuses an answer that is not exactly the range of this version of the
    /// object.
    pub fn check_response(&self, range: Range<u64>, head: &ResponseHead) -> (result: Result<()>)
        ensures
            refuses(result, response_error(self@, range.start, range.end, head@)),
    {
        validate_content_encoding(&head.headers)?;
        require_partial_content(head.status, self.validator.is_some())?;
        let returned = parse_response_content_range(&head.headers)?;
        if returned.start != range.start || returned.end != range.end || returned.total
            != self.content_length {
            return Err(
                NetworkError::InvalidResponse(
                    "server returned bytes for a different range or object length",
                ),
            );
        }
        self.validate_version(&head.headers)
    }
}

/// Names whose values are not for others to see.
pub open spec fn is_sensitive(name: Seq<char>) -> bool {
    name == "authorization"@ || name == "proxy-authorization"@ || name == "cookie"@
}

/// The name of a header as it may be shown.
pub open spec fn shown_name(name: Seq<char>) -> Seq<char> {
    if is_sensitive(name) {
        "<sensitive>"@
    } else {
        name
    }
}

/// The name of a header as it may be shown.
pub fn redacted_name(name: &str) -> (shown: String)
    ensures
        shown@ == shown_name(name@),
{
    let name = String::from_str(name);
    if same_text(&name, "authorization") || same_text(&name, "proxy-authorization") || same_text(
        &name,
        "cookie",
    ) {
        String::from_str("<sensitive>")
    } else {
        name
    }
}

/// An answer is taken only as partial content without an encoding, for exactly
/// the range that was asked for, of an object of the known length.
pub proof fn law_only_the_requested_range_is_taken(
    object: ObjectView,
    start: u64,
    end: u64,
    head: HeadView,
)
    requires
        response_error(object, start, end, head) is None,
    ensures
        head.status == 206,
        encoding_error(head.headers) is None,
        returned_range(head.headers) == Ok::<ParsedContentRange, NetworkError>(
            ParsedContentRange { start, end, total: object.content_length },
        ),
        version_error(object, head.headers) is None,
{
}

/// A server that ignores ranges is refused.
pub proof fn law_other_statuses_are_refused(
    object: ObjectView,
    start: u64,
    end: u64,
    head: HeadView,
)
    requires
        head.status != 206,
    ensures
        probed(head) is Err,
        response_error(object, start, end, head) is Some,
{
}

/// A request asks for its range and for nothing else, whatever the headers that
/// every request has, and those are sent as they are.
pub proof fn law_headers_cannot_change_the_range(
    headers: Map<Seq<char>, Seq<Seq<u8>>>,
    start: u64,
    end: u64,
    validator: Option<ValidatorView>,
    name: Seq<char>,
)
    requires
        unmanaged(headers),
    ensures
        ({
            let request = request_fields(headers, start, end, validator);
            &&& request["range"@] == seq![encode_utf8(range_text(start, end))]
            &&& request["accept-encoding"@] == seq![encode_utf8("identity"@)]
            &&& request.contains_key("if-range"@) <==> validator is Some
            &&& headers.contains_key(name) ==> request.contains_key(name) && request[name]
                == headers[name]
        }),
{
    lemma_managed_names();
}

} // verus!
