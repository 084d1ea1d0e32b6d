//! Requests to the bridge in front of a bucket, and its responses.
use crate::error::{failure, generic, Failure, StoreError};
use crate::options::{Meta, ObjectMeta};
use crate::put::PutResult;
use crate::range::{check_range, range_fault, GetRange};
use crate::text::{
    decimal, decimal_text, digits_value, first_at, is_digit, is_digits, is_number,
    law_written_numbers_are_read, lemma_decimal_reads_back, lemma_first_at_is, number_fault, number_of, opt_text, pair_texts, parse_number, same_text,
};
use crate::time::{parse_time, parsed_time, Timestamp};
use vstd::prelude::*;
use vstd::string::*;

verus! {

/// The name of the store behind the bridge in errors.
pub const STORE: &'static str = "cloudflare-r2-binding";

/// Where the bridge answers.
pub const ENDPOINT: &'static str = "http://slatedb.r2";

/// The method of a request.
#[derive(Clone, Copy, Debug, PartialEq, Eq, Structural)]
pub enum Method {
    Get,
    Head,
    Put,
    Post,
    Delete,
}

/// A request to the bridge, but for its body.
#[derive(Debug)]
pub struct BridgeRequest {
    pub method: Method,
    pub headers: Vec<(String, String)>,
    pub query: Vec<(String, String)>,
}

/// Names with their texts.
pub type Pairs = Seq<(Seq<char>, Seq<char>)>;

/// A request by its texts.
#[verifier::ext_equal]
pub struct Request {
    pub method: Method,
    pub headers: Pairs,
    pub query: Pairs,
}

impl View for BridgeRequest {
    type V = Request;

    open spec fn view(&self) -> Request {
        Request {
            method: self.method,
            headers: pair_texts(self.headers@),
            query: pair_texts(self.query@),
        }
    }
}

impl Request {
    /// A request about the object at `location`.
    pub open spec fn about(method: Method, location: Seq<char>) -> Request {
        Request { method, headers: seq![("x-slate-path"@, location)], query: Seq::empty() }
    }

    /// The request with one more header.
    pub open spec fn with_header(self, name: Seq<char>, value: Seq<char>) -> Request {
        Request { headers: self.headers.push((name, value)), ..self }
    }

    /// The request with one more header, where there is a value for it.
    pub open spec fn with_optional(self, name: Seq<char>, value: Option<Seq<char>>) -> Request {
        match value {
            Some(value) => self.with_header(name, value),
            None => self,
        }
    }
}

/// Pairs with one more, where there is a value for it.
pub open spec fn with_pair(pairs: Pairs, name: Seq<char>, value: Option<Seq<char>>) -> Pairs {
    match value {
        Some(value) => pairs.push((name, value)),
        None => pairs,
    }
}

fn push_pair(pairs: &mut Vec<(String, String)>, name: &str, value: &str)
    ensures
        pair_texts(final(pairs)@) == pair_texts(old(pairs)@).push((name@, value@)),
{
    pairs.push((name.to_owned(), value.to_owned()));
    assert(pair_texts(pairs@) =~= pair_texts(old(pairs)@).push((name@, value@)));
}

impl BridgeRequest {
    /// A request about the object at `location`.
    pub fn about(method: Method, location: &str) -> (request: BridgeRequest)
        ensures
            request@ == Request::about(method, location@),
    {
        let mut headers: Vec<(String, String)> = Vec::new();
        push_pair(&mut headers, "x-slate-path", location);
        let request = BridgeRequest { method, headers, query: Vec::new() };
        assert(request@ =~= Request::about(method, location@));
        request
    }

    /// Adds a header.
    pub fn add_header(&mut self, name: &str, value: &str)
        ensures
            final(self)@ == old(self)@.with_header(name@, value@),
    {
        push_pair(&mut self.headers, name, value);
    }

    /// Adds a header, where there is a value for it.
    pub fn add_optional(&mut self, name: &str, value: &Option<String>)
        ensures
            final(self)@ == old(self)@.with_optional(name@, opt_text(*value)),
    {
        if let Some(value) = value {
            self.add_header(name, value.as_str());
        }
    }
}

/// The query of a listing: what the names start with, where the page starts, and what parts folders.
pub open spec fn list_query(
    prefix: Option<Seq<char>>,
    cursor: Option<Seq<char>>,
    delimiter: Option<Seq<char>>,
) -> Pairs {
    with_pair(
        with_pair(with_pair(Seq::empty(), "prefix"@, prefix), "cursor"@, cursor),
        "delimiter"@,
        delimiter,
    )
}

/// The request for a page of a listing.
pub fn list_request(
    prefix: &Option<String>,
    cursor: &Option<String>,
    delimiter: &Option<String>,
) -> (request: BridgeRequest)
    ensures
        request@ == (Request {
            method: Method::Get,
            headers: seq![("x-slate-operation"@, "list"@)],
            query: list_query(opt_text(*prefix), opt_text(*cursor), opt_text(*delimiter)),
        }),
{
    let mut query: Vec<(String, String)> = Vec::new();
    assert(pair_texts(query@) =~= Seq::empty());
    if let Some(value) = prefix {
        push_pair(&mut query, "prefix", value.as_str());
    }
    if let Some(value) = cursor {
        push_pair(&mut query, "cursor", value.as_str());
    }
    if let Some(value) = delimiter {
        push_pair(&mut query, "delimiter", value.as_str());
    }
    let mut headers: Vec<(String, String)> = Vec::new();
    push_pair(&mut headers, "x-slate-operation", "list");
    let request = BridgeRequest { method: Method::Get, headers, query };
    assert(request@.headers =~= seq![("x-slate-operation"@, "list"@)]);
    request
}

/// The request that carries an operation on the upload `upload_id` to `location`.
pub open spec fn upload_operation(
    method: Method,
    location: Seq<char>,
    operation: Seq<char>,
    upload_id: Seq<char>,
) -> Request {
    Request::about(method, location).with_header("x-slate-operation"@, operation).with_header(
        "x-slate-upload-id"@,
        upload_id,
    )
}

fn upload_request(method: Method, location: &str, operation: &str, upload_id: &str) -> (request:
    BridgeRequest)
    ensures
        request@ == upload_operation(method, location@, operation@, upload_id@),
{
    let mut request = BridgeRequest::about(method, location);
    request.add_header("x-slate-operation", operation);
    request.add_header("x-slate-upload-id", upload_id);
    request
}

/// The request that sends a part of an upload.
pub fn part_request(location: &str, upload_id: &str, part_number: u16) -> (request: BridgeRequest)
    ensures
        request@ == upload_operation(
            Method::Put,
            location@,
            "multipart-part"@,
            upload_id@,
        ).with_header("x-slate-part-number"@, decimal(part_number as nat)),
{
    let mut request = upload_request(Method::Put, location, "multipart-part", upload_id);
    request.add_header("x-slate-part-number", decimal_text(part_number as u64).as_str());
    request
}

/// The request that completes an upload.
pub fn complete_request(location: &str, upload_id: &str) -> (request: BridgeRequest)
    ensures
        request@ == upload_operation(
            Method::Post,
            location@,
            "multipart-complete"@,
            upload_id@,
        ),
{
    upload_request(Method::Post, location, "multipart-complete", upload_id)
}

/// The request that gives an upload up.
pub fn abort_request(location: &str, upload_id: &str) -> (request: BridgeRequest)
    ensures
        request@ == upload_operation(Method::Delete, location@, "multipart-abort"@, upload_id@),
{
    upload_request(Method::Delete, location, "multipart-abort", upload_id)
}

/// A failure of this store.
pub open spec fn fault(words: Seq<char>) -> Failure {
    Failure::Generic { store: STORE@, message: words }
}

/// A failure of this store, if there are words for one.
pub open spec fn optional_fault(words: Option<Seq<char>>) -> Option<Failure> {
    match words {
        Some(words) => Some(fault(words)),
        None => None,
    }
}

/// The error of this store with these words.
pub fn store_fault(words: String) -> (error: StoreError)
    ensures
        error@ == fault(words@),
{
    generic(STORE, words)
}

/// A valid range as a header writes it: with the last byte in place of the end.
pub open spec fn range_text(range: GetRange) -> Seq<char> {
    match range {
        GetRange::Bounded { start, end } => "bytes="@ + decimal(start as nat) + "-"@ + decimal(
            (end - 1) as nat,
        ),
        GetRange::Offset(offset) => "bytes="@ + decimal(offset as nat) + "-"@,
        GetRange::Suffix(suffix) => "bytes=-"@ + decimal(suffix as nat),
    }
}

/// Writes a range as a header does.
pub fn range_header(range: &GetRange) -> (text: Result<String, StoreError>)
    ensures
        failure(text) == optional_fault(range_fault(*range)),
        text matches Ok(text) ==> text@ == range_text(*range),
{
    if let Err(words) = check_range(range) {
        return Err(store_fault(words));
    }
    match *range {
        GetRange::Bounded { start, end } => {
            let mut text = "bytes=".to_owned();
            text.append(decimal_text(start).as_str());
            text.append("-");
            text.append(decimal_text(end - 1).as_str());
            Ok(text)
        },
        GetRange::Offset(offset) => {
            let mut text = "bytes=".to_owned();
            text.append(decimal_text(offset).as_str());
            text.append("-");
            Ok(text)
        },
        GetRange::Suffix(suffix) => {
            let mut text = "bytes=-".to_owned();
            text.append(decimal_text(suffix).as_str());
            Ok(text)
        },
    }
}

/// What stands before the dash in a range header.
spec fn range_lead(range: GetRange) -> Seq<char> {
    match range {
        GetRange::Bounded { start, .. } => decimal(start as nat),
        GetRange::Offset(offset) => decimal(offset as nat),
        GetRange::Suffix(_) => Seq::empty(),
    }
}

/// What stands behind the dash in a range header.
spec fn range_trail(range: GetRange) -> Seq<char> {
    match range {
        GetRange::Bounded { end, .. } => decimal((end - 1) as nat),
        GetRange::Offset(_) => Seq::empty(),
        GetRange::Suffix(suffix) => decimal(suffix as nat),
    }
}

proof fn lemma_range_halves(range: GetRange)
    requires
        range_fault(range) is None,
    ensures
        ({
            let text = range_text(range);
            let dash = first_at(text, '-') as int;
            dash < text.len() && text.take(dash) == "bytes="@ + range_lead(range) && text.skip(
                dash + 1,
            ) == range_trail(range)
        }),
        range is Bounded ==> is_digits(range_lead(range)) && is_digits(range_trail(range)),
        range is Offset ==> is_digits(range_lead(range)) && range_trail(range).len() == 0,
        range is Suffix ==> range_lead(range).len() == 0 && is_digits(range_trail(range)),
{
    reveal_strlit("bytes=");
    reveal_strlit("bytes=-");
    reveal_strlit("-");
    match range {
        GetRange::Bounded { start, end } => {
            lemma_decimal_reads_back(start as nat);
            lemma_decimal_reads_back((end - 1) as nat);
        },
        GetRange::Offset(offset) => lemma_decimal_reads_back(offset as nat),
        GetRange::Suffix(suffix) => lemma_decimal_reads_back(suffix as nat),
    }
    let lead = "bytes="@ + range_lead(range);
    let text = range_text(range);
    assert(text =~= lead + seq!['-'] + range_trail(range));
    assert forall|i: int| 0 <= i < lead.len() implies text[i] != '-' by {
        if i >= 6 {
            assert(is_digit(range_lead(range)[i - 6]));
        }
    }
    lemma_first_at_is(text, '-', lead.len() as int);
    assert(text.take(lead.len() as int) =~= lead);
    assert(text.skip(lead.len() as int + 1) =~= range_trail(range));
}

/// A range header names one range: no two valid ranges are written alike.
pub proof fn law_range_headers_name_one_range(left: GetRange, right: GetRange)
    requires
        range_fault(left) is None,
        range_fault(right) is None,
        range_text(left) == range_text(right),
    ensures
        left == right,
{
    lemma_range_halves(left);
    lemma_range_halves(right);
    reveal_strlit("bytes=");
    assert(range_lead(left) =~= ("bytes="@ + range_lead(left)).skip(6));
    assert(range_lead(right) =~= ("bytes="@ + range_lead(right)).skip(6));
    match left {
        GetRange::Bounded { start, end } => {
            lemma_decimal_reads_back(start as nat);
            lemma_decimal_reads_back((end - 1) as nat);
        },
        GetRange::Offset(offset) => lemma_decimal_reads_back(offset as nat),
        GetRange::Suffix(suffix) => lemma_decimal_reads_back(suffix as nat),
    }
    match right {
        GetRange::Bounded { start, end } => {
            lemma_decimal_reads_back(start as nat);
            lemma_decimal_reads_back((end - 1) as nat);
        },
        GetRange::Offset(offset) => lemma_decimal_reads_back(offset as nat),
        GetRange::Suffix(suffix) => lemma_decimal_reads_back(suffix as nat),
    }
}

/// What the bridge answers: the status, the headers with names in lower case, and the text of the
/// body where the status is no success.
#[derive(Debug)]
pub struct BridgeResponse {
    pub status: u16,
    pub headers: Vec<(String, Vec<u8>)>,
    pub detail: String,
}

impl BridgeResponse {
    /// Whether the status has three digits, as every status has.
    pub open spec fn valid(self) -> bool {
        100 <= self.status <= 999
    }
}

/// The status and its usual reason in words, as `reqwest::StatusCode` writes them.
pub uninterp spec fn status_words(status: u16) -> Seq<char>;

/// Calls `to_string` on the `reqwest::StatusCode` of a status. It gives the number in decimal, a
/// space and the reason that goes with the number. The reasons are left unsaid.
#[verifier::external_body]
fn status_text(status: u16) -> (text: String)
    requires
        100 <= status <= 999,
    ensures
        text@ == status_words(status),
        (decimal(status as nat) + seq![' ']).is_prefix_of(text@),
{
    reqwest::StatusCode::from_u16(status).unwrap().to_string()
}

/// Whether a status says that the request was carried out.
pub open spec fn is_success(status: u16) -> bool {
    200 <= status < 300
}

/// The failure that a response amounts to: any that is no success.
pub open spec fn response_failure(response: BridgeResponse) -> Option<Failure> {
    if is_success(response.status) {
        None
    } else {
        Some(
            fault(
                "R2 binding bridge returned "@ + status_words(response.status) + ": "@
                    + response.detail@,
            ),
        )
    }
}

/// Refuses a response that is no success.
pub fn check_response(response: &BridgeResponse) -> (checked: Result<(), StoreError>)
    requires
        response.valid(),
    ensures
        failure(checked) == response_failure(*response),
{
    if 200 <= response.status && response.status < 300 {
        return Ok(());
    }
    let mut words = "R2 binding bridge returned ".to_owned();
    words.append(status_text(response.status).as_str());
    words.append(": ");
    words.append(response.detail.as_str());
    Err(store_fault(words))
}

/// The first header with a name.
pub open spec fn first_header(headers: Seq<(String, Vec<u8>)>, name: Seq<char>) -> Option<Seq<u8>>
    decreases headers.len(),
{
    if headers.len() == 0 {
        None
    } else if headers[0].0@ == name {
        Some(headers[0].1@)
    } else {
        first_header(headers.skip(1), name)
    }
}

fn find_header<'a>(headers: &'a Vec<(String, Vec<u8>)>, name: &str) -> (found: Option<&'a Vec<u8>>)
    ensures
        (match found {
            Some(value) => Some(value@),
            None => None,
        }) == first_header(headers@, name@),
{
    assert(headers@.skip(0) =~= headers@);
    for i in 0..headers.len()
        invariant
            first_header(headers@.skip(i as int), name@) == first_header(headers@, name@),
    {
        assert(headers@.skip(i as int).skip(1) =~= headers@.skip(i + 1));
        if same_text(headers[i].0.as_str(), name) {
            return Some(&headers[i].1);
        }
    }
    None
}

/// Whether a byte is visible ASCII, a space or a tab.
pub open spec fn is_visible(byte: u8) -> bool {
    32 <= byte < 127 || byte == 9
}

/// Whether the bytes of a header are text.
pub open spec fn is_header_text(bytes: Seq<u8>) -> bool {
    forall|i: int| 0 <= i < bytes.len() ==> is_visible(#[trigger] bytes[i])
}

/// Bytes as the characters with the same numbers.
pub open spec fn ascii_text(bytes: Seq<u8>) -> Seq<char> {
    bytes.map_values(|byte: u8| byte as char)
}

/// Why the bytes of a header are no text: some header can hold them, or none can.
pub open spec fn header_fault(bytes: Seq<u8>) -> Seq<char> {
    if forall|i: int| 0 <= i < bytes.len() ==> (#[trigger] bytes[i] >= 32 && bytes[i] != 127)
        || bytes[i] == 9 {
        "failed to convert header to a str"@
    } else {
        "failed to parse header value"@
    }
}

/// Calls `reqwest::header::HeaderValue::to_str` on the header that
/// `reqwest::header::HeaderValue::from_bytes` makes of the bytes. It gives their text where all are
/// visible ASCII, spaces or tabs. Else it refuses them, with other words where no header can hold
/// them.
#[verifier::external_body]
fn header_text(bytes: &Vec<u8>) -> (text: Result<String, String>)
    ensures
        text is Ok <==> is_header_text(bytes@),
        text matches Ok(value) ==> value@ == ascii_text(bytes@),
        text matches Err(words) ==> words@ == header_fault(bytes@),
{
    let value = reqwest::header::HeaderValue::from_bytes(bytes.as_slice());
    let value = value.map_err(|error| error.to_string())?;
    value.to_str().map(|text| text.to_owned()).map_err(|error| error.to_string())
}

/// The failure of the header with a name: where it is there and no text.
pub open spec fn header_failure(response: BridgeResponse, name: Seq<char>) -> Option<Failure> {
    match first_header(response.headers@, name) {
        Some(bytes) => if is_header_text(bytes) {
            None
        } else {
            Some(fault(header_fault(bytes)))
        },
        None => None,
    }
}

/// The text of the header with a name, where there is one.
pub open spec fn header_of(response: BridgeResponse, name: Seq<char>) -> Option<Seq<char>> {
    match first_header(response.headers@, name) {
        Some(bytes) => Some(ascii_text(bytes)),
        None => None,
    }
}

/// Reads a header that may be missing.
pub fn header_value(response: &BridgeResponse, name: &str) -> (value: Result<Option<String>, StoreError>)
    ensures
        failure(value) == header_failure(*response, name@),
        value matches Ok(value) ==> opt_text(value) == header_of(*response, name@),
{
    match find_header(&response.headers, name) {
        Some(bytes) => match header_text(bytes) {
            Ok(text) => Ok(Some(text)),
            Err(words) => Err(store_fault(words)),
        },
        None => Ok(None),
    }
}

/// The failure of a header that must be there.
pub open spec fn required_failure(response: BridgeResponse, name: Seq<char>) -> Option<Failure> {
    if first_header(response.headers@, name) is None {
        Some(fault("missing "@ + name + " header"@))
    } else {
        header_failure(response, name)
    }
}

/// Reads a header that must be there.
pub fn required_header(response: &BridgeResponse, name: &str) -> (value: Result<String, StoreError>)
    ensures
        failure(value) == required_failure(*response, name@),
        value matches Ok(value) ==> Some(value@) == header_of(*response, name@),
{
    match header_value(response, name) {
        Ok(Some(text)) => Ok(text),
        Ok(None) => {
            let mut words = "missing ".to_owned();
            words.append(name);
            words.append(" header");
            Err(store_fault(words))
        },
        Err(error) => Err(error),
    }
}

/// The first of two failures.
pub open spec fn first_failure(first: Option<Failure>, second: Option<Failure>) -> Option<Failure> {
    if first is Some {
        first
    } else {
        second
    }
}

/// The failure of what a response says of a written object.
pub open spec fn put_result_failure(response: BridgeResponse) -> Option<Failure> {
    first_failure(header_failure(response, "etag"@), header_failure(response, "x-slate-version"@))
}

/// Reads what a response says of a written object.
pub fn put_result(response: &BridgeResponse) -> (result: Result<PutResult, StoreError>)
    ensures
        failure(result) == put_result_failure(*response),
        result matches Ok(result) ==> opt_text(result.e_tag) == header_of(*response, "etag"@)
            && opt_text(result.version) == header_of(*response, "x-slate-version"@),
{
    let e_tag: Option<String> = match header_value(response, "etag") {
        Ok(value) => value,
        Err(error) => {
            return Err(error);
        },
    };
    match header_value(response, "x-slate-version") {
        Ok(version) => Ok(PutResult { e_tag, version }),
        Err(error) => Err(error),
    }
}

/// The failure of the size in a response.
pub open spec fn size_failure(response: BridgeResponse) -> Option<Failure> {
    let text = header_of(response, "x-slate-size"@)->0;
    if required_failure(response, "x-slate-size"@) is Some {
        required_failure(response, "x-slate-size"@)
    } else if !is_number(text, u64::MAX as nat) {
        Some(fault(number_fault(text)))
    } else {
        None
    }
}

/// The failure of the date in a response.
pub open spec fn uploaded_failure(response: BridgeResponse) -> Option<Failure> {
    let text = header_of(response, "x-slate-uploaded"@)->0;
    if required_failure(response, "x-slate-uploaded"@) is Some {
        required_failure(response, "x-slate-uploaded"@)
    } else if parsed_time(text) is Err {
        Some(fault(parsed_time(text)->Err_0))
    } else {
        None
    }
}

/// The failure of what a response says of an object: the first of those of the size, the date, the
/// tag and the version.
pub open spec fn meta_failure(response: BridgeResponse) -> Option<Failure> {
    first_failure(
        size_failure(response),
        first_failure(uploaded_failure(response), put_result_failure(response)),
    )
}

/// What a response says of the object at `location`.
pub open spec fn meta_of(location: Seq<char>, response: BridgeResponse) -> Meta {
    Meta {
        location,
        last_modified: parsed_time(header_of(response, "x-slate-uploaded"@)->0)->Ok_0,
        size: number_of(header_of(response, "x-slate-size"@)->0) as u64,
        e_tag: header_of(response, "etag"@),
        version: header_of(response, "x-slate-version"@),
    }
}

/// Reads what a response says of the object at `location`.
pub fn object_meta(location: String, response: &BridgeResponse) -> (meta: Result<
    ObjectMeta,
    StoreError,
>)
    ensures
        failure(meta) == meta_failure(*response),
        meta matches Ok(meta) ==> meta@ == meta_of(location@, *response)
            && meta.last_modified.valid(),
{
    let text: String = match required_header(response, "x-slate-size") {
        Ok(text) => text,
        Err(error) => {
            return Err(error);
        },
    };
    let size: u64 = match parse_number(text.as_str()) {
        Ok(size) => size,
        Err(words) => {
            return Err(store_fault(words));
        },
    };
    let text: String = match required_header(response, "x-slate-uploaded") {
        Ok(text) => text,
        Err(error) => {
            return Err(error);
        },
    };
    let last_modified: Timestamp = match parse_time(text.as_str()) {
        Ok(time) => time,
        Err(words) => {
            return Err(store_fault(words));
        },
    };
    match put_result(response) {
        Ok(result) => Ok(
            ObjectMeta {
                location,
                last_modified,
                size,
                e_tag: result.e_tag,
                version: result.version,
            },
        ),
        Err(error) => Err(error),
    }
}

/// The query of a page holds each thing that the listing asks for exactly where it asks for it,
/// whatever else it asks for: what the names start with, where the page starts, what parts folders.
/// It holds nothing else, nothing twice, and these in this order.
pub proof fn law_pages_are_asked_for_as_they_are(
    prefix: Option<Seq<char>>,
    cursor: Option<Seq<char>>,
    delimiter: Option<Seq<char>>,
    name: Seq<char>,
    text: Seq<char>,
)
    ensures
        list_query(prefix, cursor, delimiter).contains((name, text)) <==> (name == "prefix"@
            && prefix == Some(text)) || (name == "cursor"@ && cursor == Some(text)) || (name
            == "delimiter"@ && delimiter == Some(text)),
        list_query(prefix, cursor, delimiter).len() == (if prefix is Some {
            1int
        } else {
            0
        }) + (if cursor is Some {
            1int
        } else {
            0
        }) + (if delimiter is Some {
            1int
        } else {
            0
        }),
        prefix matches Some(text) ==> list_query(prefix, cursor, delimiter).first() == ("prefix"@, text),
        delimiter matches Some(text) ==> list_query(prefix, cursor, delimiter).last() == (
            "delimiter"@,
            text,
        ),
        cursor matches Some(text) ==> list_query(prefix, cursor, delimiter)[if prefix is Some {
            1
        } else {
            0
        }] == ("cursor"@, text),
{
    let first = with_pair(Seq::empty(), "prefix"@, prefix);
    let second = with_pair(first, "cursor"@, cursor);
    lemma_pair_in(Seq::empty(), "prefix"@, prefix, (name, text));
    lemma_pair_in(first, "cursor"@, cursor, (name, text));
    lemma_pair_in(second, "delimiter"@, delimiter, (name, text));
}

/// Where a listing goes on from a cursor, its query names that cursor and no other; where it starts
/// anew, its query names none.
pub proof fn law_the_cursor_is_passed_on(
    prefix: Option<Seq<char>>,
    cursor: Option<Seq<char>>,
    delimiter: Option<Seq<char>>,
    text: Seq<char>,
)
    ensures
        list_query(prefix, cursor, delimiter).contains(("cursor"@, text)) <==> cursor == Some(text),
        list_query(prefix, cursor, delimiter).contains(("prefix"@, text)) <==> prefix == Some(text),
        list_query(prefix, cursor, delimiter).contains(("delimiter"@, text)) <==> delimiter == Some(
            text,
        ),
{
    reveal_strlit("prefix");
    reveal_strlit("cursor");
    reveal_strlit("delimiter");
    assert("prefix"@[0] == 'p' && "cursor"@[0] == 'c' && "delimiter"@[0] == 'd');
    law_pages_are_asked_for_as_they_are(prefix, cursor, delimiter, "cursor"@, text);
    law_pages_are_asked_for_as_they_are(prefix, cursor, delimiter, "prefix"@, text);
    law_pages_are_asked_for_as_they_are(prefix, cursor, delimiter, "delimiter"@, text);
}

/// No two listings that ask for different things have the same query.
pub proof fn law_queries_tell_listings_apart(
    prefix: Option<Seq<char>>,
    cursor: Option<Seq<char>>,
    delimiter: Option<Seq<char>>,
    other_prefix: Option<Seq<char>>,
    other_cursor: Option<Seq<char>>,
    other_delimiter: Option<Seq<char>>,
)
    requires
        list_query(prefix, cursor, delimiter) == list_query(
            other_prefix,
            other_cursor,
            other_delimiter,
        ),
    ensures
        prefix == other_prefix,
        cursor == other_cursor,
        delimiter == other_delimiter,
{
    assert forall|text: Seq<char>|
        (prefix == Some(text) <==> other_prefix == Some(text)) && (cursor == Some(text)
            <==> other_cursor == Some(text)) && (delimiter == Some(text) <==> other_delimiter
            == Some(text)) by {
        law_the_cursor_is_passed_on(prefix, cursor, delimiter, text);
        law_the_cursor_is_passed_on(other_prefix, other_cursor, other_delimiter, text);
    }
    let text = if prefix is Some {
        prefix->0
    } else {
        other_prefix->0
    };
    assert(prefix == Some(text) <==> other_prefix == Some(text));
    let text = if cursor is Some {
        cursor->0
    } else {
        other_cursor->0
    };
    assert(cursor == Some(text) <==> other_cursor == Some(text));
    let text = if delimiter is Some {
        delimiter->0
    } else {
        other_delimiter->0
    };
    assert(delimiter == Some(text) <==> other_delimiter == Some(text));
}

proof fn lemma_pair_in(
    pairs: Pairs,
    name: Seq<char>,
    value: Option<Seq<char>>,
    pair: (Seq<char>, Seq<char>),
)
    ensures
        with_pair(pairs, name, value).contains(pair) <==> pairs.contains(pair) || (pair.0 == name
            && value == Some(pair.1)),
{
    if let Some(text) = value {
        let all = pairs.push((name, text));
        assert(all[pairs.len() as int] == (name, text));
        if pairs.contains(pair) {
            let at = choose|at: int| 0 <= at < pairs.len() && pairs[at] == pair;
            assert(all[at] == pair);
        }
        if all.contains(pair) {
            let at = choose|at: int| 0 <= at < all.len() && all[at] == pair;
            assert(at < pairs.len() ==> pairs[at] == pair);
        }
    }
}

/// A request about an object names its location and nothing else. A header more stands behind the
/// others, and one without a value is left out; the method and the query stay.
pub proof fn law_headers_are_added_behind(
    method: Method,
    location: Seq<char>,
    request: Request,
    name: Seq<char>,
    value: Seq<char>,
)
    ensures
        Request::about(method, location).method == method,
        Request::about(method, location).headers.len() == 1,
        Request::about(method, location).headers[0] == ("x-slate-path"@, location),
        Request::about(method, location).query.len() == 0,
        request.with_header(name, value).headers.drop_last() == request.headers,
        request.with_header(name, value).headers.last() == (name, value),
        request.with_header(name, value).headers.len() == request.headers.len() + 1,
        request.with_header(name, value).method == request.method,
        request.with_header(name, value).query == request.query,
        request.with_optional(name, Some(value)) == request.with_header(name, value),
        request.with_optional(name, None) == request,
{
    assert(request.with_header(name, value).headers.drop_last() =~= request.headers);
}

/// A header is in a request where it was, or where it was added.
pub proof fn law_added_headers_are_there(
    request: Request,
    name: Seq<char>,
    value: Option<Seq<char>>,
    pair: (Seq<char>, Seq<char>),
)
    ensures
        request.with_optional(name, value).headers.contains(pair) <==> request.headers.contains(pair)
            || (pair.0 == name && value == Some(pair.1)),
{
    lemma_pair_in(request.headers, name, value, pair);
}

/// A request shows its method and, one for one and in order, its headers and its query.
pub proof fn law_requests_show_what_they_hold(request: BridgeRequest)
    ensures
        request@.method == request.method,
        request@.headers.len() == request.headers@.len(),
        request@.query.len() == request.query@.len(),
        forall|i: int|
            0 <= i < request.headers@.len() ==> #[trigger] request@.headers[i] == (
                request.headers@[i].0@,
                request.headers@[i].1@,
            ),
        forall|i: int|
            0 <= i < request.query@.len() ==> #[trigger] request@.query[i] == (
                request.query@[i].0@,
                request.query@[i].1@,
            ),
{
}

/// An operation on an upload names the location, the operation and the upload, in this order, and
/// nothing else.
pub proof fn law_upload_requests_name_their_upload(
    method: Method,
    location: Seq<char>,
    operation: Seq<char>,
    upload_id: Seq<char>,
)
    ensures
        upload_operation(method, location, operation, upload_id).method == method,
        upload_operation(method, location, operation, upload_id).query.len() == 0,
        upload_operation(method, location, operation, upload_id).headers == seq![
            ("x-slate-path"@, location),
            ("x-slate-operation"@, operation),
            ("x-slate-upload-id"@, upload_id),
        ],
{
    assert(upload_operation(method, location, operation, upload_id).headers =~= seq![
        ("x-slate-path"@, location),
        ("x-slate-operation"@, operation),
        ("x-slate-upload-id"@, upload_id),
    ]);
}

/// A failure of this store names this store and has the words.
pub proof fn law_faults_name_the_store(words: Seq<char>, first: Option<Failure>, second: Option<Failure>)
    ensures
        fault(words) == (Failure::Generic { store: "cloudflare-r2-binding"@, message: words }),
        optional_fault(None) is None,
        optional_fault(Some(words)) == Some(fault(words)),
        first is Some ==> first_failure(first, second) == first,
        first is None ==> first_failure(first, second) == second,
{
}

/// The line of a range: what stands before its dash and what stands behind it.
pub open spec fn range_line(lead: Seq<char>, trail: Seq<char>) -> Seq<char> {
    "bytes="@ + lead + "-"@ + trail
}

/// A range header reads back as the range: a bounded one has its first byte and its last byte, an
/// offset only its first byte, a suffix only how many bytes.
pub proof fn law_range_headers_read_back(range: GetRange)
    requires
        range_fault(range) is None,
    ensures
        exists|lead: Seq<char>, trail: Seq<char>|
            {
                &&& range_text(range) == #[trigger] range_line(lead, trail)
                &&& range matches GetRange::Bounded { start, end } ==> is_digits(lead)
                    && digits_value(lead) == start && is_digits(trail) && digits_value(trail) + 1
                    == end
                &&& range matches GetRange::Offset(offset) ==> is_digits(lead) && digits_value(lead)
                    == offset && trail.len() == 0
                &&& range matches GetRange::Suffix(suffix) ==> lead.len() == 0 && is_digits(trail)
                    && digits_value(trail) == suffix
            },
{
    reveal_strlit("bytes=");
    reveal_strlit("bytes=-");
    reveal_strlit("-");
    match range {
        GetRange::Bounded { start, end } => {
            lemma_decimal_reads_back(start as nat);
            lemma_decimal_reads_back((end - 1) as nat);
        },
        GetRange::Offset(offset) => lemma_decimal_reads_back(offset as nat),
        GetRange::Suffix(suffix) => lemma_decimal_reads_back(suffix as nat),
    }
    assert(range_text(range) =~= range_line(range_lead(range), range_trail(range)));
}

/// A response is a success exactly where its status is from 200 to 299. Any other fails in words that
/// hold the status and what the bridge says.
pub proof fn law_only_successes_pass(response: BridgeResponse)
    ensures
        response_failure(response) is None <==> 200 <= response.status <= 299,
        is_success(response.status) <==> 200 <= response.status <= 299,
        response_failure(response) matches Some(failure) ==> failure == (Failure::Generic {
            store: "cloudflare-r2-binding"@,
            message: "R2 binding bridge returned "@ + status_words(response.status) + ": "@
                + response.detail@,
        }),
{
}

/// Of the headers with a name the first counts, and where there is none with it, none does.
pub proof fn law_the_first_header_counts(headers: Seq<(String, Vec<u8>)>, name: Seq<char>, at: int)
    ensures
        0 <= at < headers.len() && headers[at].0@ == name && (forall|i: int|
            0 <= i < at ==> (#[trigger] headers[i]).0@ != name) ==> first_header(headers, name)
            == Some(headers[at].1@),
        (forall|i: int| 0 <= i < headers.len() ==> (#[trigger] headers[i]).0@ != name)
            ==> first_header(headers, name) is None,
    decreases headers.len(),
{
    if headers.len() > 0 {
        let rest = headers.skip(1);
        law_the_first_header_counts(rest, name, at - 1);
        assert(forall|i: int| 0 <= i < rest.len() ==> #[trigger] rest[i] == headers[i + 1]);
        if headers[0].0@ != name {
            if at > 0 && at < headers.len() {
                assert(rest[at - 1] == headers[at]);
            }
            if forall|i: int| 0 <= i < at ==> (#[trigger] headers[i]).0@ != name {
                assert(forall|i: int| 0 <= i < at - 1 && i < rest.len() ==> (#[trigger] rest[i]).0@ != name);
            }
        }
    }
}

/// A header that is there and all visible reads as its bytes, character for character. One that is
/// not visible fails. One that is missing fails only where it must be there.
pub proof fn law_headers_are_read_as_they_are(response: BridgeResponse, name: Seq<char>)
    ensures
        first_header(response.headers@, name) is None ==> header_failure(response, name) is None
            && header_of(response, name) is None && required_failure(response, name) == Some(
            Failure::Generic {
                store: "cloudflare-r2-binding"@,
                message: "missing "@ + name + " header"@,
            },
        ),
        first_header(response.headers@, name) matches Some(bytes) ==> {
            let visible = forall|i: int|
                0 <= i < bytes.len() ==> (32 <= #[trigger] bytes[i] <= 126 || bytes[i] == 9);
            &&& visible <==> header_failure(response, name) is None
            &&& visible <==> required_failure(response, name) is None
            &&& !visible ==> required_failure(response, name) == header_failure(response, name)
                && header_failure(response, name) == Some(
                Failure::Generic { store: "cloudflare-r2-binding"@, message: header_fault(bytes) },
            )
            &&& header_of(response, name) matches Some(text) && text.len() == bytes.len()
            &&& forall|i: int|
                0 <= i < bytes.len() ==> #[trigger] header_of(response, name)->0[i] == bytes[i] as char
        },
{
    if let Some(bytes) = first_header(response.headers@, name) {
        if forall|i: int| 0 <= i < bytes.len() ==> (32 <= #[trigger] bytes[i] <= 126 || bytes[i] == 9) {
            assert(is_header_text(bytes));
        }
        if is_header_text(bytes) {
            assert forall|i: int| 0 <= i < bytes.len() implies (32 <= #[trigger] bytes[i] <= 126
                || bytes[i] == 9) by {
                assert(is_visible(bytes[i]));
            }
        }
    }
}

/// What a response says of an object can be read exactly where the size is there and a number, the
/// date is there and a date, and the tag and the version, where they are there, are texts. What fails
/// first is named, in this order.
pub proof fn law_metadata_is_read_in_order(response: BridgeResponse)
    ensures
        ({
            let size = required_failure(response, "x-slate-size"@);
            let size_text = header_of(response, "x-slate-size"@)->0;
            let date = required_failure(response, "x-slate-uploaded"@);
            let date_text = header_of(response, "x-slate-uploaded"@)->0;
            let tag = header_failure(response, "etag"@);
            let version = header_failure(response, "x-slate-version"@);
            let counted = size is None && is_number(size_text, u64::MAX as nat);
            let dated = counted && date is None && parsed_time(date_text) is Ok;
            let failed = meta_failure(response);
            &&& failed is None <==> dated && tag is None && version is None
            &&& size is Some ==> failed == size
            &&& size is None && !counted ==> failed == Some(fault(number_fault(size_text)))
            &&& counted && date is Some ==> failed == date
            &&& counted && date is None && !dated ==> failed == Some(
                fault(parsed_time(date_text)->Err_0),
            )
            &&& dated && tag is Some ==> failed == tag
            &&& dated && tag is None && version is Some ==> failed == version
            &&& put_result_failure(response) is None <==> tag is None && version is None
            &&& tag is Some ==> put_result_failure(response) == tag
            &&& tag is None ==> put_result_failure(response) == version
        }),
{
}

/// What a response says of an object is read off its own headers, at the location that was asked for.
pub proof fn law_metadata_is_what_the_headers_say(location: Seq<char>, response: BridgeResponse, n: nat)
    ensures
        meta_of(location, response).location == location,
        n <= u64::MAX && header_of(response, "x-slate-size"@) == Some(decimal(n)) ==> meta_of(
            location,
            response,
        ).size == n,
        meta_failure(response) is None ==> meta_of(location, response).size == number_of(
            header_of(response, "x-slate-size"@)->0,
        ),
        meta_failure(response) is None ==> parsed_time(
            header_of(response, "x-slate-uploaded"@)->0,
        ) == Ok::<Timestamp, Seq<char>>(meta_of(location, response).last_modified),
        meta_of(location, response).e_tag == header_of(response, "etag"@),
        meta_of(location, response).version == header_of(response, "x-slate-version"@),
{
    law_written_numbers_are_read(n, u64::MAX as nat);
}

} // verus!
