//! The store over the bridge to a bucket binding: what is counted, what is asked of the bridge and
//! what its answers mean.
use crate::bridge::{
    check_response, fault, first_failure, header_of, law_added_headers_are_there, list_query,
    list_request, meta_failure, meta_of, object_meta, optional_fault, put_result,
    put_result_failure, range_header, range_text, response_failure, store_fault, BridgeRequest,
    BridgeResponse, Method, Request,
};
use crate::error::{
    failure, not_found, not_modified, not_supported, precondition, Failure, StoreError,
};
use crate::list::{folder_paths, folders, metas, ListPage};
use crate::multipart::{MultipartUpload, Upload};
use crate::options::{
    check_preconditions, is_unchanged, is_unwanted, unchanged_words, unwanted_words, GetOptions,
    Meta, ObjectMeta, Verdict,
};
use crate::path::{is_path, parse_path, path_fault, without_first_slash, without_last_slash};
use crate::perf::{grown, increment};
use crate::put::{failed_put_precondition, stopped_put, PutMode, PutResult};
use crate::range::{range_fault, resolve_range, selection, selection_refusal, ByteRange, GetRange};
use crate::text::{clone_text, opt_text, texts};
use crate::time::{mail_date, to_rfc2822, Timestamp};
use std::collections::BTreeMap;
use vstd::prelude::*;
use vstd::string::*;

verus! {

/// How often a store has done what. The counts wrap around.
#[derive(Debug)]
pub struct BindingStoreCounters {
    pub gets: u64,
    pub heads: u64,
    pub puts: u64,
    pub lists: u64,
    pub deletes: u64,
    pub multipart_uploads: u64,
    pub multipart_parts: u64,
    pub multipart_completes: u64,
    pub read_bytes: u64,
    pub written_bytes: u64,
    pub errors: u64,
}

/// Whether the names of pairs are all different.
pub open spec fn named_apart(pairs: Seq<(String, u64)>) -> bool {
    forall|i: int, j: int|
        0 <= i < j < pairs.len() ==> (#[trigger] pairs[i]).0@ != (#[trigger] pairs[j]).0@
}

/// Pairs as a map from the name to the number.
pub open spec fn by_name(pairs: Seq<(String, u64)>) -> Map<Seq<char>, u64>
    decreases pairs.len(),
{
    if pairs.len() == 0 {
        Map::empty()
    } else {
        by_name(pairs.drop_last()).insert(pairs.last().0@, pairs.last().1)
    }
}

/// Calls `std::collections::BTreeMap::from_iter`. Of pairs with different names it makes the map
/// that holds each name with its number, and nothing else.
#[verifier::external_body]
fn map_of(pairs: Vec<(String, u64)>) -> (map: BTreeMap<String, u64>)
    requires
        named_apart(pairs@),
    ensures
        map.deep_view() == by_name(pairs@),
{
    BTreeMap::from_iter(pairs)
}

impl BindingStoreCounters {
    /// The counters by the names under which they are reported.
    pub open spec fn named(self) -> Map<Seq<char>, u64> {
        map![
            "r2Gets"@ => self.gets,
            "r2Heads"@ => self.heads,
            "r2Puts"@ => self.puts,
            "r2Lists"@ => self.lists,
            "r2Deletes"@ => self.deletes,
            "r2MultipartUploads"@ => self.multipart_uploads,
            "r2MultipartParts"@ => self.multipart_parts,
            "r2MultipartCompletes"@ => self.multipart_completes,
            "r2ReadBytes"@ => self.read_bytes,
            "r2WrittenBytes"@ => self.written_bytes,
            "r2Errors"@ => self.errors,
        ]
    }

    /// Every counter under its name.
    pub fn snapshot(&self) -> (counts: BTreeMap<String, u64>)
        ensures
            counts.deep_view() == self.named(),
    {
        proof {
            lemma_counter_names();
        }
        let mut pairs: Vec<(String, u64)> = Vec::new();
        push_count(&mut pairs, "r2Gets", self.gets);
        push_count(&mut pairs, "r2Heads", self.heads);
        push_count(&mut pairs, "r2Puts", self.puts);
        push_count(&mut pairs, "r2Lists", self.lists);
        push_count(&mut pairs, "r2Deletes", self.deletes);
        push_count(&mut pairs, "r2MultipartUploads", self.multipart_uploads);
        push_count(&mut pairs, "r2MultipartParts", self.multipart_parts);
        push_count(&mut pairs, "r2MultipartCompletes", self.multipart_completes);
        push_count(&mut pairs, "r2ReadBytes", self.read_bytes);
        push_count(&mut pairs, "r2WrittenBytes", self.written_bytes);
        push_count(&mut pairs, "r2Errors", self.errors);
        assert(by_name(pairs@) =~= self.named());
        map_of(pairs)
    }

    /// The counters at nought.
    pub open spec fn zero() -> BindingStoreCounters {
        BindingStoreCounters {
            gets: 0,
            heads: 0,
            puts: 0,
            lists: 0,
            deletes: 0,
            multipart_uploads: 0,
            multipart_parts: 0,
            multipart_completes: 0,
            read_bytes: 0,
            written_bytes: 0,
            errors: 0,
        }
    }
}

impl Default for BindingStoreCounters {
    fn default() -> (counters: BindingStoreCounters)
        ensures
            counters == BindingStoreCounters::zero(),
    {
        BindingStoreCounters {
            gets: 0,
            heads: 0,
            puts: 0,
            lists: 0,
            deletes: 0,
            multipart_uploads: 0,
            multipart_parts: 0,
            multipart_completes: 0,
            read_bytes: 0,
            written_bytes: 0,
            errors: 0,
        }
    }
}

/// The names of the counters differ in length or in their third character.
proof fn lemma_counter_names()
    ensures
        "r2Gets"@.len() == 6,
        "r2Heads"@.len() == 7,
        "r2Puts"@.len() == 6,
        "r2Lists"@.len() == 7,
        "r2Deletes"@.len() == 9,
        "r2MultipartUploads"@.len() == 18,
        "r2MultipartParts"@.len() == 16,
        "r2MultipartCompletes"@.len() == 20,
        "r2ReadBytes"@.len() == 11,
        "r2WrittenBytes"@.len() == 14,
        "r2Errors"@.len() == 8,
        "r2Gets"@[2] != "r2Puts"@[2],
        "r2Heads"@[2] != "r2Lists"@[2],
{
    reveal_strlit("r2Gets");
    assert("r2Gets"@.len() == 6);
    reveal_strlit("r2Heads");
    assert("r2Heads"@.len() == 7);
    reveal_strlit("r2Puts");
    assert("r2Puts"@.len() == 6);
    reveal_strlit("r2Lists");
    assert("r2Lists"@.len() == 7);
    reveal_strlit("r2Deletes");
    assert("r2Deletes"@.len() == 9);
    reveal_strlit("r2MultipartUploads");
    assert("r2MultipartUploads"@.len() == 18);
    reveal_strlit("r2MultipartParts");
    assert("r2MultipartParts"@.len() == 16);
    reveal_strlit("r2MultipartCompletes");
    assert("r2MultipartCompletes"@.len() == 20);
    reveal_strlit("r2ReadBytes");
    assert("r2ReadBytes"@.len() == 11);
    reveal_strlit("r2WrittenBytes");
    assert("r2WrittenBytes"@.len() == 14);
    reveal_strlit("r2Errors");
    assert("r2Errors"@.len() == 8);
}

proof fn lemma_by_name_dom(pairs: Seq<(String, u64)>, name: Seq<char>)
    requires
        !by_name(pairs).contains_key(name),
    ensures
        forall|i: int| 0 <= i < pairs.len() ==> (#[trigger] pairs[i]).0@ != name,
    decreases pairs.len(),
{
    if pairs.len() > 0 {
        lemma_by_name_dom(pairs.drop_last(), name);
        assert forall|i: int| 0 <= i < pairs.len() implies (#[trigger] pairs[i]).0@ != name by {
            if i < pairs.len() - 1 {
                assert(pairs.drop_last()[i] == pairs[i]);
            }
        }
    }
}

fn push_count(pairs: &mut Vec<(String, u64)>, name: &str, count: u64)
    requires
        named_apart(old(pairs)@),
        !by_name(old(pairs)@).contains_key(name@),
    ensures
        named_apart(final(pairs)@),
        by_name(final(pairs)@) == by_name(old(pairs)@).insert(name@, count),
{
    proof {
        lemma_by_name_dom(pairs@, name@);
    }
    pairs.push((name.to_owned(), count));
    assert(pairs@.drop_last() =~= old(pairs)@);
}

/// A store over the bridge, with what it has counted.
#[derive(Debug)]
pub struct BindingStore {
    pub counters: BindingStoreCounters,
}

impl BindingStore {
    /// A store that counts on from `counters`.
    pub fn new(counters: BindingStoreCounters) -> (store: BindingStore)
        ensures
            store.counters == counters,
    {
        BindingStore { counters }
    }

    /// The store in words.
    pub fn label(&self) -> (words: &'static str)
        ensures
            words@ == "CloudflareR2Binding"@,
    {
        "CloudflareR2Binding"
    }

    /// Counts a request that did not get through, and gives its error.
    pub fn failed(&mut self, words: String) -> (error: StoreError)
        ensures
            final(self).counters == (BindingStoreCounters {
                errors: grown(old(self).counters.errors, 1),
                ..old(self).counters
            }),
            error@ == fault(words@),
    {
        increment(&mut self.counters.errors, 1);
        store_fault(words)
    }

    /// Counts a write and gives the request for it.
    pub fn put_request(&mut self, location: &str, mode: &PutMode) -> (request: Result<
        BridgeRequest,
        StoreError,
    >)
        ensures
            final(self).counters == (BindingStoreCounters {
                puts: grown(old(self).counters.puts, 1),
                ..old(self).counters
            }),
            failure(request) == put_refusal(*mode),
            request matches Ok(request) ==> request@ == put_asked(location@, *mode),
    {
        increment(&mut self.counters.puts, 1);
        let mut request = BridgeRequest::about(Method::Put, location);
        match mode {
            PutMode::Overwrite => {},
            PutMode::Create => {
                request.add_header("if-none-match", "*");
            },
            PutMode::Update(version) => match &version.e_tag {
                Some(e_tag) => {
                    request.add_header("if-match", e_tag.as_str());
                },
                None => {
                    return Err(not_supported("R2 conditional update requires an ETag"));
                },
            },
        }
        Ok(request)
    }

    /// What a write of `size` bytes comes to, and what is counted of it: the bytes of one that was
    /// carried out, an error for one that its condition stopped.
    pub fn put_outcome(
        &mut self,
        location: &str,
        mode: &PutMode,
        size: u64,
        response: &BridgeResponse,
    ) -> (outcome: Result<PutResult, StoreError>)
        requires
            response.valid(),
        ensures
            final(self).counters == (if response.status == 412 {
                BindingStoreCounters {
                    errors: grown(old(self).counters.errors, 1),
                    ..old(self).counters
                }
            } else if response_failure(*response) is None {
                BindingStoreCounters {
                    written_bytes: grown(old(self).counters.written_bytes, size),
                    ..old(self).counters
                }
            } else {
                old(self).counters
            }),
            failure(outcome) == put_failure(location@, *mode, *response),
            outcome matches Ok(result) ==> opt_text(result.e_tag) == header_of(*response, "etag"@)
                && opt_text(result.version) == header_of(*response, "x-slate-version"@),
    {
        if response.status == 412 {
            increment(&mut self.counters.errors, 1);
            return Err(failed_put_precondition(location, mode));
        }
        if let Err(error) = check_response(response) {
            return Err(error);
        }
        increment(&mut self.counters.written_bytes, size);
        put_result(response)
    }

    /// Counts an upload in parts and gives the request that starts it.
    pub fn start_request(&mut self, location: &str) -> (request: BridgeRequest)
        ensures
            final(self).counters == (BindingStoreCounters {
                multipart_uploads: grown(old(self).counters.multipart_uploads, 1),
                ..old(self).counters
            }),
            request@ == Request::about(Method::Post, location@).with_header(
                "x-slate-operation"@,
                "multipart-start"@,
            ),
    {
        increment(&mut self.counters.multipart_uploads, 1);
        let mut request = BridgeRequest::about(Method::Post, location);
        request.add_header("x-slate-operation", "multipart-start");
        request
    }

    /// Counts a part of `size` bytes that the bridge has taken.
    pub fn part_taken(&mut self, size: u64)
        ensures
            final(self).counters == (BindingStoreCounters {
                multipart_parts: grown(old(self).counters.multipart_parts, 1),
                written_bytes: grown(old(self).counters.written_bytes, size),
                ..old(self).counters
            }),
    {
        increment(&mut self.counters.multipart_parts, 1);
        increment(&mut self.counters.written_bytes, size);
    }

    /// What the completion of an upload comes to. One that was carried out is counted.
    pub fn complete_outcome(&mut self, response: &BridgeResponse) -> (outcome: Result<
        PutResult,
        StoreError,
    >)
        requires
            response.valid(),
        ensures
            final(self).counters == (if response_failure(*response) is None {
                BindingStoreCounters {
                    multipart_completes: grown(old(self).counters.multipart_completes, 1),
                    ..old(self).counters
                }
            } else {
                old(self).counters
            }),
            failure(outcome) == first_failure(
                response_failure(*response),
                put_result_failure(*response),
            ),
            outcome matches Ok(result) ==> opt_text(result.e_tag) == header_of(*response, "etag"@)
                && opt_text(result.version) == header_of(*response, "x-slate-version"@),
    {
        if let Err(error) = check_response(response) {
            return Err(error);
        }
        increment(&mut self.counters.multipart_completes, 1);
        put_result(response)
    }

    /// Counts a read and gives the request for it.
    pub fn get_request(&mut self, location: &str, options: &GetOptions) -> (request: Result<
        BridgeRequest,
        StoreError,
    >)
        requires
            options.version is None ==> has_mail_dates(*options),
        ensures
            final(self).counters == (if options.head {
                BindingStoreCounters {
                    heads: grown(old(self).counters.heads, 1),
                    ..old(self).counters
                }
            } else {
                BindingStoreCounters {
                    gets: grown(old(self).counters.gets, 1),
                    ..old(self).counters
                }
            }),
            failure(request) == get_refusal(*options),
            request matches Ok(request) ==> request@ == get_asked(location@, *options),
    {
        let method: Method = if options.head {
            increment(&mut self.counters.heads, 1);
            Method::Head
        } else {
            increment(&mut self.counters.gets, 1);
            Method::Get
        };
        if options.version.is_some() {
            return Err(not_supported("R2 Workers bindings do not expose versioned GET"));
        }
        let mut request = BridgeRequest::about(method, location);
        request.add_optional("if-match", &options.if_match);
        request.add_optional("if-none-match", &options.if_none_match);
        if let Some(time) = options.if_modified_since {
            request.add_header("if-modified-since", to_rfc2822(time).as_str());
        }
        if let Some(time) = options.if_unmodified_since {
            request.add_header("if-unmodified-since", to_rfc2822(time).as_str());
        }
        if let Some(range) = &options.range {
            match range_header(range) {
                Ok(text) => {
                    request.add_header("range", text.as_str());
                },
                Err(error) => {
                    return Err(error);
                },
            }
        }
        Ok(request)
    }

    /// Counts bytes that have been read.
    pub fn bytes_read(&mut self, count: u64)
        ensures
            final(self).counters == (BindingStoreCounters {
                read_bytes: grown(old(self).counters.read_bytes, count),
                ..old(self).counters
            }),
    {
        increment(&mut self.counters.read_bytes, count);
    }

    /// Counts a deletion and gives the request for it.
    pub fn delete_request(&mut self, location: &str) -> (request: BridgeRequest)
        ensures
            final(self).counters == (BindingStoreCounters {
                deletes: grown(old(self).counters.deletes, 1),
                ..old(self).counters
            }),
            request@ == Request::about(Method::Delete, location@),
    {
        increment(&mut self.counters.deletes, 1);
        BridgeRequest::about(Method::Delete, location)
    }

    /// Counts a page of a listing and gives the request for it.
    pub fn list_request(
        &mut self,
        prefix: &Option<String>,
        cursor: &Option<String>,
        delimiter: &Option<String>,
    ) -> (request: BridgeRequest)
        ensures
            final(self).counters == (BindingStoreCounters {
                lists: grown(old(self).counters.lists, 1),
                ..old(self).counters
            }),
            request@ == (Request {
                method: Method::Get,
                headers: seq![("x-slate-operation"@, "list"@)],
                query: list_query(opt_text(*prefix), opt_text(*cursor), opt_text(*delimiter)),
            }),
    {
        increment(&mut self.counters.lists, 1);
        list_request(prefix, cursor, delimiter)
    }
}

/// The report tells counters apart: no two states of the counters are reported alike.
pub proof fn law_reports_tell_counters_apart(left: BindingStoreCounters, right: BindingStoreCounters)
    requires
        left.named() == right.named(),
    ensures
        left == right,
{
    lemma_counter_names();
    let (l, r) = (left.named(), right.named());
    assert(l["r2Gets"@] == r["r2Gets"@]);
    assert(l["r2Heads"@] == r["r2Heads"@]);
    assert(l["r2Puts"@] == r["r2Puts"@]);
    assert(l["r2Lists"@] == r["r2Lists"@]);
    assert(l["r2Deletes"@] == r["r2Deletes"@]);
    assert(l["r2MultipartUploads"@] == r["r2MultipartUploads"@]);
    assert(l["r2MultipartParts"@] == r["r2MultipartParts"@]);
    assert(l["r2MultipartCompletes"@] == r["r2MultipartCompletes"@]);
    assert(l["r2ReadBytes"@] == r["r2ReadBytes"@]);
    assert(l["r2WrittenBytes"@] == r["r2WrittenBytes"@]);
    assert(l["r2Errors"@] == r["r2Errors"@]);
}

/// Only an overwriting write is asked for without a condition, and where its condition stops a
/// write, a creating one fails as an object that exists and an updating one as a condition.
pub proof fn law_only_overwrites_are_unconditional(
    location: Seq<char>,
    mode: PutMode,
    response: BridgeResponse,
)
    requires
        put_refusal(mode) is None,
    ensures
        put_asked(location, mode) == Request::about(Method::Put, location) <==> mode is Overwrite,
        response.status == 412 && mode is Create ==> put_failure(location, mode, response)->0
            is AlreadyExists,
        response.status == 412 && mode is Update ==> put_failure(location, mode, response)->0
            is Precondition,
{
    assert(Request::about(Method::Put, location).headers.len() == 1);
    assert(!(mode is Overwrite) ==> put_asked(location, mode).headers.len() == 2);
}

/// Why a write cannot be asked for: an update must say what it replaces.
pub open spec fn put_refusal(mode: PutMode) -> Option<Failure> {
    match mode {
        PutMode::Update(version) => if version.e_tag is None {
            Some(Failure::NotSupported { message: "R2 conditional update requires an ETag"@ })
        } else {
            None
        },
        _ => None,
    }
}

/// The request of a write.
pub open spec fn put_asked(location: Seq<char>, mode: PutMode) -> Request {
    let request = Request::about(Method::Put, location);
    match mode {
        PutMode::Overwrite => request,
        PutMode::Create => request.with_header("if-none-match"@, "*"@),
        PutMode::Update(version) => request.with_optional("if-match"@, opt_text(version.e_tag)),
    }
}

/// What a write fails with once the bridge has answered.
pub open spec fn put_failure(location: Seq<char>, mode: PutMode, response: BridgeResponse) -> Option<
    Failure,
> {
    if response.status == 412 {
        Some(stopped_put(location, mode))
    } else {
        first_failure(response_failure(response), put_result_failure(response))
    }
}

/// Whether the dates of a read are ones that a header can name.
pub open spec fn has_mail_dates(options: GetOptions) -> bool {
    &&& options.valid()
    &&& options.if_modified_since matches Some(time) ==> time.has_mail_year()
    &&& options.if_unmodified_since matches Some(time) ==> time.has_mail_year()
}

/// Why a read cannot be asked for: it names a version, or a range that is none.
pub open spec fn get_refusal(options: GetOptions) -> Option<Failure> {
    if options.version is Some {
        Some(Failure::NotSupported { message: "R2 Workers bindings do not expose versioned GET"@ })
    } else {
        match options.range {
            Some(range) => optional_fault(range_fault(range)),
            None => None,
        }
    }
}

/// The date of an optional point, as a header writes it.
pub open spec fn opt_mail_date(time: Option<Timestamp>) -> Option<Seq<char>> {
    match time {
        Some(time) => Some(mail_date(time)),
        None => None,
    }
}

/// An optional range, as a header writes it.
pub open spec fn opt_range_text(range: Option<GetRange>) -> Option<Seq<char>> {
    match range {
        Some(range) => Some(range_text(range)),
        None => None,
    }
}

/// The request of a read: a header for each thing that it asks for.
pub open spec fn get_asked(location: Seq<char>, options: GetOptions) -> Request {
    let method = if options.head {
        Method::Head
    } else {
        Method::Get
    };
    Request::about(method, location).with_optional(
        "if-match"@,
        opt_text(options.if_match),
    ).with_optional("if-none-match"@, opt_text(options.if_none_match)).with_optional(
        "if-modified-since"@,
        opt_mail_date(options.if_modified_since),
    ).with_optional(
        "if-unmodified-since"@,
        opt_mail_date(options.if_unmodified_since),
    ).with_optional("range"@, opt_range_text(options.range))
}

/// A read that the bridge has answered.
#[derive(Debug)]
pub struct BindingRead {
    pub meta: ObjectMeta,
    pub range: ByteRange,
    /// Whether the bytes are to be taken from the response's body; else there are none.
    pub read_body: bool,
}

/// The bytes that a read of an object of `size` bytes gives.
pub fn returned_range(range: Option<&GetRange>, size: u64) -> (outcome: Result<ByteRange, StoreError>)
    ensures
        failure(outcome) == optional_fault(
            selection_refusal(
                (match range {
                    Some(range) => Some(*range),
                    None => None,
                }),
                size,
            ),
        ),
        outcome matches Ok(bytes) ==> bytes == selection(
            (match range {
                Some(range) => Some(*range),
                None => None,
            }),
            size,
        ),
{
    match range {
        Some(range) => match resolve_range(range, size) {
            Ok(bytes) => Ok(bytes),
            Err(words) => Err(store_fault(words)),
        },
        None => Ok(ByteRange { start: 0, end: size }),
    }
}

/// What a read fails with for what the status of the response says.
pub open spec fn read_status_failure(location: Seq<char>, response: BridgeResponse) -> Option<
    Failure,
> {
    if response.status == 404 {
        Some(Failure::NotFound { path: location, message: "R2 object not found"@ })
    } else if response.status == 412 {
        Some(Failure::Precondition { path: location, message: "R2 read precondition failed"@ })
    } else if response.status == 304 {
        Some(Failure::NotModified { path: location, message: "R2 object was not modified"@ })
    } else {
        response_failure(response)
    }
}

/// What a read fails with for what the response says of the object: it is not the wanted one, it is
/// the one that the caller has, or the range misses it.
pub open spec fn read_object_failure(location: Seq<char>, options: GetOptions, meta: Meta) -> Option<
    Failure,
> {
    if is_unwanted(options, meta.e_tag, meta.last_modified) {
        Some(
            Failure::Precondition {
                path: location,
                message: unwanted_words(options, meta.e_tag, meta.last_modified),
            },
        )
    } else if is_unchanged(options, meta.e_tag, meta.last_modified) {
        Some(
            Failure::NotModified {
                path: location,
                message: unchanged_words(options, meta.e_tag, meta.last_modified),
            },
        )
    } else {
        optional_fault(selection_refusal(options.range, meta.size))
    }
}

/// What a read fails with once the bridge has answered.
pub open spec fn get_failure(
    location: Seq<char>,
    options: GetOptions,
    response: BridgeResponse,
) -> Option<Failure> {
    first_failure(
        read_status_failure(location, response),
        first_failure(
            meta_failure(response),
            read_object_failure(location, options, meta_of(location, response)),
        ),
    )
}

/// What a read comes to.
pub fn get_outcome(location: &str, options: &GetOptions, response: &BridgeResponse) -> (outcome:
    Result<BindingRead, StoreError>)
    requires
        options.valid(),
        response.valid(),
    ensures
        failure(outcome) == get_failure(location@, *options, *response),
        outcome matches Ok(read) ==> read.meta@ == meta_of(location@, *response) && read.range
            == selection(options.range, read.meta.size) && read.read_body == !options.head,
{
    if response.status == 404 {
        return Err(not_found(location, "R2 object not found"));
    }
    if response.status == 412 {
        return Err(precondition(location, "R2 read precondition failed"));
    }
    if response.status == 304 {
        return Err(not_modified(location, "R2 object was not modified"));
    }
    if let Err(error) = check_response(response) {
        return Err(error);
    }
    let meta: ObjectMeta = match object_meta(location.to_owned(), response) {
        Ok(meta) => meta,
        Err(error) => {
            return Err(error);
        },
    };
    read_outcome(location, options, meta)
}

/// What a read of an object comes to of which the bridge has said this.
pub fn read_outcome(location: &str, options: &GetOptions, meta: ObjectMeta) -> (outcome: Result<
    BindingRead,
    StoreError,
>)
    requires
        options.valid(),
        meta.last_modified.valid(),
    ensures
        failure(outcome) == read_object_failure(location@, *options, meta@),
        outcome matches Ok(read) ==> read.meta == meta && read.range == selection(
            options.range,
            meta.size,
        ) && read.read_body == !options.head,
{
    match check_preconditions(options, clone_text(&meta.e_tag), meta.last_modified) {
        Verdict::Unwanted(words) => {
            return Err(precondition(location, words.as_str()));
        },
        Verdict::Unchanged(words) => {
            return Err(not_modified(location, words.as_str()));
        },
        Verdict::Allowed => {},
    }
    match returned_range(options.range.as_ref(), meta.size) {
        Ok(range) => Ok(BindingRead { meta, range, read_body: !options.head }),
        Err(error) => Err(error),
    }
}

/// An object in a page of a listing.
#[derive(Debug)]
pub struct ListObject {
    pub key: String,
    pub size: u64,
    pub etag: String,
    pub version: String,
    pub uploaded: Timestamp,
}

/// The failure of an object in a page: its key is no path.
pub open spec fn listed_failure(object: ListObject) -> Option<Failure> {
    if is_path(object.key@) {
        None
    } else {
        Some(fault(path_fault(object.key@)))
    }
}

/// What a page says of an object.
pub open spec fn listed(object: ListObject) -> Meta {
    Meta {
        location: without_last_slash(without_first_slash(object.key@)),
        last_modified: object.uploaded,
        size: object.size,
        e_tag: Some(object.etag@),
        version: Some(object.version@),
    }
}

impl ListObject {
    /// Reads what a page says of an object.
    pub fn into_meta(self) -> (meta: Result<ObjectMeta, StoreError>)
        ensures
            failure(meta) == listed_failure(self),
            meta matches Ok(meta) ==> meta@ == listed(self),
    {
        match parse_path(self.key.as_str()) {
            Ok(location) => Ok(
                ObjectMeta {
                    location,
                    last_modified: self.uploaded,
                    size: self.size,
                    e_tag: Some(self.etag),
                    version: Some(self.version),
                },
            ),
            Err(words) => Err(store_fault(words)),
        }
    }
}

/// The failure of a page: that of the first object that has one.
pub open spec fn page_failure(objects: Seq<ListObject>) -> Option<Failure>
    decreases objects.len(),
{
    if objects.len() == 0 {
        None
    } else {
        first_failure(listed_failure(objects[0]), page_failure(objects.skip(1)))
    }
}

/// What a page says of its objects.
pub open spec fn listed_all(objects: Seq<ListObject>) -> Seq<Meta> {
    objects.map_values(|object: ListObject| listed(object))
}

/// Reads a page of a listing.
pub fn list_page(objects: Vec<ListObject>, prefixes: &Vec<String>, cursor: Option<String>) -> (page:
    Result<ListPage, StoreError>)
    ensures
        failure(page) == page_failure(objects@),
        page matches Ok(page) ==> metas(page.objects@) == listed_all(objects@) && texts(
            page.prefixes@,
        ) == folder_paths(texts(prefixes@)) && page.cursor == cursor,
{
    let ghost all = objects@;
    let mut metadata: Vec<ObjectMeta> = Vec::new();
    assert(all.skip(0) =~= all);
    for object in it: objects
        invariant
            it.seq() == all,
            metas(metadata@) == listed_all(all).take(it.index()),
            page_failure(all.skip(it.index())) == page_failure(all),
    {
        let ghost at = it.index();
        assert(all.skip(at).skip(1) =~= all.skip(at + 1));
        assert(all.skip(at)[0] == object);
        match object.into_meta() {
            Ok(meta) => {
                proof {
                    assert(listed_all(all)[at] == meta@);
                    assert(metas(metadata@.push(meta)) =~= metas(metadata@).push(meta@));
                    assert(listed_all(all).take(at + 1) =~= listed_all(all).take(at).push(meta@));
                }
                metadata.push(meta);
            },
            Err(error) => {
                return Err(error);
            },
        }
    }
    assert(metas(metadata@) =~= listed_all(all));
    Ok(ListPage { objects: metadata, prefixes: folders(prefixes), cursor })
}

/// Starts an upload in parts to `location`.
pub fn start_multipart(location: &str) -> (upload: MultipartUpload)
    ensures
        upload@ == Upload::start(location@, "R2 supports at most 10,000 multipart parts"@),
{
    MultipartUpload::new(location, "R2 supports at most 10,000 multipart parts")
}

/// The error of an upload whose state was lost with the task that held it.
pub fn multipart_lock_error() -> (error: StoreError)
    ensures
        error@ == fault("multipart state lock poisoned"@),
{
    store_fault("multipart state lock poisoned".to_owned())
}

/// Each counter is reported under its own name, and nothing else is reported.
pub proof fn law_counters_are_reported_under_their_names(
    counters: BindingStoreCounters,
    name: Seq<char>,
)
    ensures
        counters.named().contains_key(name) <==> name == "r2Gets"@ || name == "r2Heads"@ || name
            == "r2Puts"@ || name == "r2Lists"@ || name == "r2Deletes"@ || name
            == "r2MultipartUploads"@ || name == "r2MultipartParts"@ || name
            == "r2MultipartCompletes"@ || name == "r2ReadBytes"@ || name == "r2WrittenBytes"@
            || name == "r2Errors"@,
        counters.named()["r2Gets"@] == counters.gets,
        counters.named()["r2Heads"@] == counters.heads,
        counters.named()["r2Puts"@] == counters.puts,
        counters.named()["r2Lists"@] == counters.lists,
        counters.named()["r2Deletes"@] == counters.deletes,
        counters.named()["r2MultipartUploads"@] == counters.multipart_uploads,
        counters.named()["r2MultipartParts"@] == counters.multipart_parts,
        counters.named()["r2MultipartCompletes"@] == counters.multipart_completes,
        counters.named()["r2ReadBytes"@] == counters.read_bytes,
        counters.named()["r2WrittenBytes"@] == counters.written_bytes,
        counters.named()["r2Errors"@] == counters.errors,
{
    lemma_counter_names();
}

/// Counters start at nought, every one.
pub proof fn law_counters_start_at_nought(name: Seq<char>)
    ensures
        BindingStoreCounters::zero().named().contains_key(name)
            ==> BindingStoreCounters::zero().named()[name] == 0,
{
    lemma_counter_names();
}

/// A write puts at its location: an overwriting one without a condition, a creating one where no tag
/// is there, an updating one where the tag is the one that its caller names, whatever version is named
/// beside it. It asks for nothing else.
pub proof fn law_writes_are_asked_for_as_they_are(
    location: Seq<char>,
    mode: PutMode,
    name: Seq<char>,
    text: Seq<char>,
)
    ensures
        put_asked(location, mode).method == Method::Put,
        put_asked(location, mode).query.len() == 0,
        put_asked(location, mode).headers.len() == (match mode {
            PutMode::Overwrite => 1nat,
            PutMode::Create => 2nat,
            PutMode::Update(version) => if version.e_tag is Some {
                2nat
            } else {
                1nat
            },
        }),
        put_asked(location, mode).headers.contains((name, text)) <==> (name == "x-slate-path"@ && text
            == location) || (name == "if-none-match"@ && text == "*"@ && mode is Create) || (name
            == "if-match"@ && (mode matches PutMode::Update(version) && (version.e_tag matches Some(
            tag,
        ) && tag@ == text))),
{
    let about = Request::about(Method::Put, location);
    assert(about.headers[0] == ("x-slate-path"@, location));
    let pair = (name, text);
    match mode {
        PutMode::Overwrite => {},
        PutMode::Create => {
            law_added_headers_are_there(about, "if-none-match"@, Some("*"@), pair);
        },
        PutMode::Update(version) => {
            law_added_headers_are_there(about, "if-match"@, opt_text(version.e_tag), pair);
        },
    }
}

/// A write is refused exactly where it is an update that names no tag.
pub proof fn law_updates_must_name_a_tag(mode: PutMode)
    ensures
        put_refusal(mode) is Some <==> (mode matches PutMode::Update(version) && version.e_tag is None),
        put_refusal(mode) matches Some(refusal) ==> refusal == (Failure::NotSupported {
            message: "R2 conditional update requires an ETag"@,
        }),
{
}

/// A write succeeds exactly where the bridge reports a success whose tag and version, where they are
/// there, are texts. A stopped one fails by its mode, and any other as the response does.
pub proof fn law_writes_fail_as_the_bridge_says(
    location: Seq<char>,
    mode: PutMode,
    response: BridgeResponse,
)
    ensures
        put_failure(location, mode, response) is None <==> 200 <= response.status <= 299
            && put_result_failure(response) is None,
        response.status == 412 ==> put_failure(location, mode, response) == Some(
            stopped_put(location, mode),
        ),
        response.status != 412 && response_failure(response) is Some ==> put_failure(
            location,
            mode,
            response,
        ) == response_failure(response),
        200 <= response.status <= 299 ==> put_failure(location, mode, response)
            == put_result_failure(response),
{
}

/// A read is asked for with a header for each thing that its caller asks for, each by itself and none
/// made up: the tags, the dates as mail writes them, the range. One of no content asks for what is
/// known of the object alone.
pub proof fn law_reads_are_asked_for_as_they_are(
    location: Seq<char>,
    options: GetOptions,
    name: Seq<char>,
    text: Seq<char>,
)
    ensures
        get_asked(location, options).method == (if options.head {
            Method::Head
        } else {
            Method::Get
        }),
        get_asked(location, options).query.len() == 0,
        get_asked(location, options).headers.len() == 1 + (if options.if_match is Some {
            1int
        } else {
            0
        }) + (if options.if_none_match is Some {
            1int
        } else {
            0
        }) + (if options.if_modified_since is Some {
            1int
        } else {
            0
        }) + (if options.if_unmodified_since is Some {
            1int
        } else {
            0
        }) + (if options.range is Some {
            1int
        } else {
            0
        }),
        get_asked(location, options).headers.contains((name, text)) <==> (name == "x-slate-path"@
            && text == location) || (name == "if-match"@ && (options.if_match matches Some(tag)
            && tag@ == text)) || (name == "if-none-match"@ && (options.if_none_match matches Some(tag)
            && tag@ == text)) || (name == "if-modified-since"@ && (options.if_modified_since
            matches Some(time) && mail_date(time) == text)) || (name == "if-unmodified-since"@ && (
        options.if_unmodified_since matches Some(time) && mail_date(time) == text)) || (name
            == "range"@ && (options.range matches Some(range) && range_text(range) == text)),
{
    let method = if options.head {
        Method::Head
    } else {
        Method::Get
    };
    let pair = (name, text);
    let about = Request::about(method, location);
    let matched = about.with_optional("if-match"@, opt_text(options.if_match));
    let unmatched = matched.with_optional("if-none-match"@, opt_text(options.if_none_match));
    let since = opt_mail_date(options.if_modified_since);
    let modified = unmatched.with_optional("if-modified-since"@, since);
    let until = opt_mail_date(options.if_unmodified_since);
    let unmodified = modified.with_optional("if-unmodified-since"@, until);
    assert(about.headers[0] == ("x-slate-path"@, location));
    law_added_headers_are_there(about, "if-match"@, opt_text(options.if_match), pair);
    law_added_headers_are_there(matched, "if-none-match"@, opt_text(options.if_none_match), pair);
    law_added_headers_are_there(unmatched, "if-modified-since"@, since, pair);
    law_added_headers_are_there(modified, "if-unmodified-since"@, until, pair);
    law_added_headers_are_there(unmodified, "range"@, opt_range_text(options.range), pair);
}

/// A read is refused exactly where it names a version, or else a bounded range that is empty or longer
/// than memory.
pub proof fn law_versions_and_bad_ranges_are_refused(options: GetOptions)
    ensures
        get_refusal(options) is None <==> options.version is None && (options.range matches Some(
            GetRange::Bounded { start, end },
        ) ==> start < end && end - start <= usize::MAX),
        options.version is Some ==> get_refusal(options) == Some(
            Failure::NotSupported {
                message: "R2 Workers bindings do not expose versioned GET"@,
            },
        ),
        options.version is None && get_refusal(options) is Some ==> get_refusal(options) == Some(
            Failure::Generic {
                store: "cloudflare-r2-binding"@,
                message: range_fault(options.range->0)->0,
            },
        ),
{
}

/// The dates of a read can be named exactly where the calendar has each of them, between the years
/// that mail can write.
pub proof fn law_mail_dates_have_four_digit_years(options: GetOptions)
    ensures
        has_mail_dates(options) <==> (options.if_modified_since matches Some(time) ==> time.valid()
            && -62_167_219_200 <= time.seconds <= 253_402_300_799) && (options.if_unmodified_since
            matches Some(time) ==> time.valid() && -62_167_219_200 <= time.seconds
            <= 253_402_300_799),
{
}

/// A missing object, a failed condition and an unchanged object have statuses of their own; any other
/// status is a success from 200 to 299 and a failure else.
pub proof fn law_statuses_say_how_a_read_fails(location: Seq<char>, response: BridgeResponse)
    ensures
        read_status_failure(location, response) is None <==> 200 <= response.status <= 299,
        response.status == 404 ==> read_status_failure(location, response) == Some(
            Failure::NotFound { path: location, message: "R2 object not found"@ },
        ),
        response.status == 412 ==> read_status_failure(location, response) == Some(
            Failure::Precondition { path: location, message: "R2 read precondition failed"@ },
        ),
        response.status == 304 ==> read_status_failure(location, response) == Some(
            Failure::NotModified { path: location, message: "R2 object was not modified"@ },
        ),
        response.status != 404 && response.status != 412 && response.status != 304
            ==> read_status_failure(location, response) == response_failure(response),
{
}

/// A read of an object succeeds exactly where its conditions and its range allow it, and what fails it
/// first is named: the wanted object, then the changed one, then the range.
pub proof fn law_objects_say_how_a_read_fails(location: Seq<char>, options: GetOptions, meta: Meta)
    ensures
        ({
            let unwanted = is_unwanted(options, meta.e_tag, meta.last_modified);
            let unchanged = is_unchanged(options, meta.e_tag, meta.last_modified);
            let missed = selection_refusal(options.range, meta.size);
            let failed = read_object_failure(location, options, meta);
            &&& failed is None <==> !unwanted && !unchanged && missed is None
            &&& unwanted ==> (failed matches Some(Failure::Precondition { path, message }) && path
                == location && message == unwanted_words(options, meta.e_tag, meta.last_modified))
            &&& !unwanted && unchanged ==> (failed matches Some(
                Failure::NotModified { path, message },
            ) && path == location && message == unchanged_words(
                options,
                meta.e_tag,
                meta.last_modified,
            ))
            &&& !unwanted && !unchanged ==> (missed matches Some(words) ==> failed == Some(
                Failure::Generic { store: "cloudflare-r2-binding"@, message: words },
            ))
        }),
{
}

/// A read fails for its status first, then for what cannot be read of the object, then for the object;
/// it succeeds where none of them stops it.
pub proof fn law_reads_fail_in_order(location: Seq<char>, options: GetOptions, response: BridgeResponse)
    ensures
        ({
            let status = read_status_failure(location, response);
            let said = meta_failure(response);
            let object = read_object_failure(location, options, meta_of(location, response));
            let failed = get_failure(location, options, response);
            &&& failed is None <==> status is None && said is None && object is None
            &&& status is Some ==> failed == status
            &&& status is None && said is Some ==> failed == said
            &&& status is None && said is None && object is Some ==> failed == object
        }),
{
}

/// What a page says of an object is what stands in it, under its key without the slash that it may
/// start with and the one that it may end with.
pub proof fn law_listed_objects_keep_what_they_say(object: ListObject)
    ensures
        listed(object).last_modified == object.uploaded,
        listed(object).size == object.size,
        listed(object).e_tag == Some(object.etag@),
        listed(object).version == Some(object.version@),
        ({
            let key = object.key@;
            let from: int = if key.len() > 0 && key[0] == '/' {
                1
            } else {
                0
            };
            let to: int = if key.len() > from && key.last() == '/' {
                key.len() - 1
            } else {
                key.len() as int
            };
            listed(object).location == key.subrange(from, to)
        }),
        listed_failure(object) is None <==> is_path(object.key@),
        listed_failure(object) matches Some(failure) ==> failure == (Failure::Generic {
            store: "cloudflare-r2-binding"@,
            message: path_fault(object.key@),
        }),
{
    let key = object.key@;
    let from: int = if key.len() > 0 && key[0] == '/' {
        1
    } else {
        0
    };
    let to: int = if key.len() > from && key.last() == '/' {
        key.len() - 1
    } else {
        key.len() as int
    };
    assert(without_first_slash(key) =~= key.skip(from));
    assert(listed(object).location =~= key.subrange(from, to));
}

/// A page fails as the first of its objects that does, and not where none does.
pub proof fn law_the_first_bad_object_fails_the_page(objects: Seq<ListObject>, at: int)
    ensures
        0 <= at < objects.len() && !is_path(objects[at].key@) && (forall|i: int|
            0 <= i < at ==> is_path((#[trigger] objects[i]).key@)) ==> page_failure(objects)
            == listed_failure(objects[at]),
        (forall|i: int| 0 <= i < objects.len() ==> is_path((#[trigger] objects[i]).key@))
            ==> page_failure(objects) is None,
    decreases objects.len(),
{
    if objects.len() > 0 {
        let rest = objects.skip(1);
        law_the_first_bad_object_fails_the_page(rest, at - 1);
        assert(forall|i: int| 0 <= i < rest.len() ==> #[trigger] rest[i] == objects[i + 1]);
        if is_path(objects[0].key@) && 0 < at < objects.len() {
            assert(rest[at - 1] == objects[at]);
            if forall|i: int| 0 <= i < at ==> is_path((#[trigger] objects[i]).key@) {
                assert(forall|i: int| 0 <= i < at - 1 ==> is_path((#[trigger] rest[i]).key@));
            }
        }
    }
}

/// A page says something of every object in it, one for one and in order.
pub proof fn law_pages_list_every_object(objects: Seq<ListObject>, at: int)
    requires
        0 <= at < objects.len(),
    ensures
        listed_all(objects).len() == objects.len(),
        listed_all(objects)[at] == listed(objects[at]),
{
}

} // verus!
