//! The store over a bucket binding: what is asked of the bucket, and what its answers mean.
use crate::error::{
    failure, generic, not_found, not_modified, not_supported, precondition, Failure, StoreError,
};
use crate::list::{folder_paths, folders, metas, next_list_cursor, ListPage};
use crate::multipart::{MultipartUpload, Upload};
use crate::options::{
    check_preconditions, is_unchanged, is_unwanted, unchanged_words, unwanted_words, GetOptions,
    Meta, ObjectMeta, Verdict,
};
use crate::path::{path_from, path_of};
use crate::put::{failed_put_precondition, stopped_put, PutMode, PutResult, UpdateVersion};
use crate::range::{
    as_r2_range, check_range, range_fault, resolve_range, selection, selection_refusal, ByteRange,
    GetRange, R2Range,
};
use crate::text::{clone_text, opt_text, texts};
use crate::time::{stored_at, time_stored, unsigned_millis, wrapped_u64, Timestamp};
use vstd::prelude::*;
use vstd::string::*;

verus! {

/// The name of this store in errors.
pub const STORE: &'static str = "cloudflare-r2";

/// A store over the bucket that a binding names.
#[derive(Debug)]
pub struct R2Store {
    pub binding: String,
}

impl R2Store {
    /// A store over the bucket behind `binding`.
    pub fn new(binding: &str) -> (store: R2Store)
        ensures
            store.binding@ == binding@,
    {
        R2Store { binding: binding.to_owned() }
    }

    /// The store in words.
    pub fn label(&self) -> (words: String)
        ensures
            words@ == "R2("@ + self.binding@ + ")"@,
    {
        let mut words = "R2(".to_owned();
        words.append(self.binding.as_str());
        words.append(")");
        words
    }
}

/// A condition of a request to the bucket. Points in time are unsigned milliseconds.
#[derive(Debug)]
pub struct Conditional {
    pub etag_matches: Option<String>,
    pub etag_does_not_match: Option<String>,
    pub uploaded_before: Option<u64>,
    pub uploaded_after: Option<u64>,
}

/// A condition by its texts.
#[verifier::ext_equal]
pub struct Condition {
    pub etag_matches: Option<Seq<char>>,
    pub etag_does_not_match: Option<Seq<char>>,
    pub uploaded_before: Option<u64>,
    pub uploaded_after: Option<u64>,
}

impl View for Conditional {
    type V = Condition;

    open spec fn view(&self) -> Condition {
        Condition {
            etag_matches: opt_text(self.etag_matches),
            etag_does_not_match: opt_text(self.etag_does_not_match),
            uploaded_before: self.uploaded_before,
            uploaded_after: self.uploaded_after,
        }
    }
}

/// An optional condition by its texts.
pub open spec fn opt_condition(condition: Option<Conditional>) -> Option<Condition> {
    match condition {
        Some(condition) => Some(condition@),
        None => None,
    }
}

/// Why a write in a mode cannot be asked for: the bucket knows no versions.
pub open spec fn put_mode_failure(mode: PutMode) -> Option<Failure> {
    match mode {
        PutMode::Update(version) => if version.version is Some && version.e_tag is None {
            Some(Failure::NotSupported { message: "R2 conditional update requires an ETag"@ })
        } else {
            None
        },
        _ => None,
    }
}

/// The condition of a write.
pub open spec fn put_condition(mode: PutMode) -> Option<Condition> {
    match mode {
        PutMode::Overwrite => None,
        PutMode::Create => Some(
            Condition {
                etag_matches: None,
                etag_does_not_match: Some("*"@),
                uploaded_before: None,
                uploaded_after: None,
            },
        ),
        PutMode::Update(version) => Some(
            Condition {
                etag_matches: opt_text(version.e_tag),
                etag_does_not_match: None,
                uploaded_before: None,
                uploaded_after: None,
            },
        ),
    }
}

/// The condition that makes the bucket keep to the mode of a write.
pub fn put_conditional(mode: &PutMode) -> (conditional: Result<Option<Conditional>, StoreError>)
    ensures
        failure(conditional) == put_mode_failure(*mode),
        conditional matches Ok(conditional) ==> opt_condition(conditional) == put_condition(*mode),
{
    match mode {
        PutMode::Overwrite => Ok(None),
        PutMode::Create => Ok(
            Some(
                Conditional {
                    etag_matches: None,
                    etag_does_not_match: Some("*".to_owned()),
                    uploaded_before: None,
                    uploaded_after: None,
                },
            ),
        ),
        PutMode::Update(version) => {
            if version.version.is_some() && version.e_tag.is_none() {
                return Err(not_supported("R2 conditional update requires an ETag"));
            }
            Ok(
                Some(
                    Conditional {
                        etag_matches: clone_text(&version.e_tag),
                        etag_does_not_match: None,
                        uploaded_before: None,
                        uploaded_after: None,
                    },
                ),
            )
        },
    }
}

/// What the bucket says of an object.
#[derive(Debug)]
pub struct R2Object {
    pub key: String,
    pub size: u64,
    pub etag: String,
    pub version: String,
    /// When it was stored, in milliseconds since the epoch.
    pub uploaded: u64,
}

/// What a write comes to: the bucket answers with the object, or with none where the condition of
/// the write does not hold.
pub fn put_outcome(location: &str, mode: &PutMode, object: Option<R2Object>) -> (outcome: Result<
    PutResult,
    StoreError,
>)
    ensures
        failure(outcome) == (if object is Some {
            None
        } else {
            Some(stopped_put(location@, *mode))
        }),
        outcome matches Ok(result) ==> result.e_tag == Some(object->0.etag) && result.version
            == Some(object->0.version),
{
    match object {
        Some(object) => Ok(PutResult { e_tag: Some(object.etag), version: Some(object.version) }),
        None => Err(failed_put_precondition(location, mode)),
    }
}

/// A failure of this store.
pub fn store_failure(message: String) -> (error: StoreError)
    ensures
        error@ == (Failure::Generic { store: STORE@, message: message@ }),
{
    generic(STORE, message)
}

/// A range in the form that the bucket takes.
pub fn to_r2_range(range: &GetRange) -> (outcome: Result<R2Range, StoreError>)
    ensures
        failure(outcome) == (match range_fault(*range) {
            Some(words) => Some(Failure::Generic { store: STORE@, message: words }),
            None => None,
        }),
        outcome matches Ok(converted) ==> converted == as_r2_range(*range),
{
    if let Err(words) = check_range(range) {
        return Err(store_failure(words));
    }
    Ok(
        match *range {
            GetRange::Bounded { start, end } => R2Range::OffsetWithLength {
                offset: start,
                length: end - start,
            },
            GetRange::Offset(offset) => R2Range::OffsetToEnd { offset },
            GetRange::Suffix(suffix) => R2Range::Suffix { suffix },
        },
    )
}

/// The bytes that a read of an object of `size` bytes gives.
pub fn returned_range(range: Option<&GetRange>, size: u64) -> (outcome: Result<ByteRange, StoreError>)
    ensures
        failure(outcome) == (match selection_refusal(
            (match range {
                Some(range) => Some(*range),
                None => None,
            }),
            size,
        ) {
            Some(words) => Some(Failure::Generic { store: STORE@, message: words }),
            None => None,
        }),
        outcome matches Ok(bytes) ==> bytes == selection(
            (match range {
                Some(range) => Some(*range),
                None => None,
            }),
            size,
        ),
{
    match range {
        Some(range) => match resolve_range(range, size) {
            Ok(bytes) => Ok(bytes),
            Err(words) => Err(store_failure(words)),
        },
        None => Ok(ByteRange { start: 0, end: size }),
    }
}

/// Refuses what the bucket has no operation for.
pub fn check_supported(options: &GetOptions) -> (checked: Result<(), StoreError>)
    ensures
        failure(checked) == (if options.version is Some {
            Some(
                Failure::NotSupported {
                    message: "R2 Workers bindings do not expose versioned GET"@,
                },
            )
        } else {
            None
        }),
{
    if options.version.is_some() {
        Err(not_supported("R2 Workers bindings do not expose versioned GET"))
    } else {
        Ok(())
    }
}

/// What is asked of the bucket for a read.
#[derive(Debug)]
pub enum R2Request {
    /// What it knows of the object.
    Head,
    /// The object, or a part of it, where the condition holds.
    Get { conditional: Option<Conditional>, range: Option<R2Range> },
}

/// Whether a read asks for no more than what is known of the object.
pub open spec fn is_plain_head(options: GetOptions) -> bool {
    options.head && options.range is None && options.unconditional()
}

/// The condition of a read: none where the read has none.
pub open spec fn get_condition(options: GetOptions) -> Option<Condition> {
    if options.unconditional() {
        None
    } else {
        Some(
            Condition {
                etag_matches: opt_text(options.if_match),
                etag_does_not_match: opt_text(options.if_none_match),
                uploaded_before: opt_millis(options.if_unmodified_since),
                uploaded_after: opt_millis(options.if_modified_since),
            },
        )
    }
}

/// An optional point in unsigned milliseconds.
pub open spec fn opt_millis(time: Option<Timestamp>) -> Option<u64> {
    match time {
        Some(time) => Some(wrapped_u64(time.millis())),
        None => None,
    }
}

fn date_millis(time: Option<Timestamp>) -> (millis: Option<u64>)
    requires
        crate::time::valid_time(time),
    ensures
        millis == opt_millis(time),
{
    match time {
        Some(time) => Some(unsigned_millis(time)),
        None => None,
    }
}

/// Why a read cannot be asked for: its range is none.
pub open spec fn get_request_failure(options: GetOptions) -> Option<Failure> {
    match options.range {
        Some(range) => match range_fault(range) {
            Some(words) => Some(Failure::Generic { store: STORE@, message: words }),
            None => None,
        },
        None => None,
    }
}

/// The request that a read makes of the bucket.
pub fn get_request(options: &GetOptions) -> (outcome: Result<R2Request, StoreError>)
    requires
        options.valid(),
    ensures
        failure(outcome) == get_request_failure(*options),
        outcome matches Ok(request) ==> (request is Head <==> is_plain_head(*options)),
        outcome matches Ok(R2Request::Get { conditional, range }) ==> opt_condition(conditional)
            == get_condition(*options) && range == (match options.range {
            Some(range) => Some(as_r2_range(range)),
            None => None,
        }),
{
    let unconditional: bool = options.if_match.is_none() && options.if_none_match.is_none()
        && options.if_modified_since.is_none() && options.if_unmodified_since.is_none();
    if options.head && options.range.is_none() && unconditional {
        return Ok(R2Request::Head);
    }
    let conditional: Option<Conditional> = if unconditional {
        None
    } else {
        Some(
            Conditional {
                etag_matches: clone_text(&options.if_match),
                etag_does_not_match: clone_text(&options.if_none_match),
                uploaded_before: date_millis(options.if_unmodified_since),
                uploaded_after: date_millis(options.if_modified_since),
            },
        )
    };
    let range: Option<R2Range> = match &options.range {
        Some(range) => match to_r2_range(range) {
            Ok(range) => Some(range),
            Err(error) => {
                return Err(error);
            },
        },
        None => None,
    };
    Ok(R2Request::Get { conditional, range })
}

/// What is known of an object that the bucket has described.
pub open spec fn described(location: Seq<char>, object: R2Object) -> Meta {
    Meta {
        location,
        last_modified: stored_at(object.uploaded),
        size: object.size,
        e_tag: Some(object.etag@),
        version: Some(object.version@),
    }
}

/// Reads what is known of an object off the bucket's description.
pub fn object_meta(location: String, object: &R2Object) -> (meta: ObjectMeta)
    ensures
        meta@ == described(location@, *object),
        meta.last_modified.valid(),
{
    ObjectMeta {
        location,
        last_modified: time_stored(object.uploaded),
        size: object.size,
        e_tag: Some(object.etag.clone()),
        version: Some(object.version.clone()),
    }
}

/// A read that the bucket has answered.
#[derive(Debug)]
pub struct R2Read {
    pub meta: ObjectMeta,
    pub range: ByteRange,
    /// Whether the bytes are to be taken from the answer's body; else there are none.
    pub read_body: bool,
}

/// What a read fails with once the bucket has answered: with no object; with one that the
/// conditions refuse; with one that the range misses; with one without the body that was wanted.
pub open spec fn get_failure(
    location: Seq<char>,
    options: GetOptions,
    object: Option<R2Object>,
    has_body: bool,
) -> Option<Failure> {
    match object {
        None => Some(Failure::NotFound { path: location, message: "R2 object not found"@ }),
        Some(object) => {
            let e_tag = Some(object.etag@);
            let stored = stored_at(object.uploaded);
            if is_unwanted(options, e_tag, stored) {
                Some(
                    Failure::Precondition {
                        path: location,
                        message: unwanted_words(options, e_tag, stored),
                    },
                )
            } else if is_unchanged(options, e_tag, stored) {
                Some(
                    Failure::NotModified {
                        path: location,
                        message: unchanged_words(options, e_tag, stored),
                    },
                )
            } else if selection_refusal(options.range, object.size) is Some {
                Some(
                    Failure::Generic {
                        store: STORE@,
                        message: selection_refusal(options.range, object.size)->0,
                    },
                )
            } else if !options.head && !has_body {
                Some(
                    Failure::Precondition {
                        path: location,
                        message: "R2 returned metadata without a body"@,
                    },
                )
            } else {
                None
            }
        },
    }
}

/// What a read comes to. `has_body` says whether the bucket's answer carries bytes.
pub fn get_outcome(
    location: &str,
    options: &GetOptions,
    object: Option<R2Object>,
    has_body: bool,
) -> (outcome: Result<R2Read, StoreError>)
    requires
        options.valid(),
    ensures
        failure(outcome) == get_failure(location@, *options, object, has_body),
        outcome matches Ok(read) ==> read.meta@ == described(location@, object->0) && read.range
            == selection(options.range, object->0.size) && read.read_body == !options.head,
{
    let object: R2Object = match object {
        Some(object) => object,
        None => {
            return Err(not_found(location, "R2 object not found"));
        },
    };
    let meta: ObjectMeta = object_meta(location.to_owned(), &object);
    match check_preconditions(options, clone_text(&meta.e_tag), meta.last_modified) {
        Verdict::Unwanted(words) => {
            return Err(precondition(location, words.as_str()));
        },
        Verdict::Unchanged(words) => {
            return Err(not_modified(location, words.as_str()));
        },
        Verdict::Allowed => {},
    }
    let range: ByteRange = match returned_range(options.range.as_ref(), meta.size) {
        Ok(range) => range,
        Err(error) => {
            return Err(error);
        },
    };
    if !options.head && !has_body {
        return Err(precondition(location, "R2 returned metadata without a body"));
    }
    Ok(R2Read { meta, range, read_body: !options.head })
}

/// What is known of the objects of a page.
pub open spec fn described_all(objects: Seq<R2Object>) -> Seq<Meta> {
    objects.map_values(|object: R2Object| described(path_of(object.key@), object))
}

/// Reads a page of a listing off the bucket's answer.
pub fn list_page(
    objects: &Vec<R2Object>,
    prefixes: &Vec<String>,
    truncated: bool,
    cursor: Option<String>,
) -> (page: ListPage)
    ensures
        metas(page.objects@) == described_all(objects@),
        texts(page.prefixes@) == folder_paths(texts(prefixes@)),
        page.cursor == (if truncated {
            cursor
        } else {
            None
        }),
{
    let mut metadata: Vec<ObjectMeta> = Vec::new();
    for i in 0..objects.len()
        invariant
            metas(metadata@) == described_all(objects@).take(i as int),
    {
        let meta = object_meta(path_from(objects[i].key.as_str()), &objects[i]);
        proof {
            let all = described_all(objects@);
            assert(all[i as int] == meta@);
            assert(metas(metadata@.push(meta)) =~= metas(metadata@).push(meta@));
            assert(all.take(i + 1) =~= all.take(i as int).push(meta@));
        }
        metadata.push(meta);
    }
    assert(metas(metadata@) =~= described_all(objects@));
    ListPage {
        objects: metadata,
        prefixes: folders(prefixes),
        cursor: next_list_cursor(truncated, cursor),
    }
}

/// Starts an upload in parts to `location`.
pub fn start_multipart(location: &str) -> (upload: MultipartUpload)
    ensures
        upload@ == Upload::start(location@, "R2 multipart uploads support at most 10,000 parts"@),
{
    MultipartUpload::new(location, "R2 multipart uploads support at most 10,000 parts")
}

/// The error of an upload whose state was lost with the task that held it.
pub fn multipart_lock_error() -> (error: StoreError)
    ensures
        error@ == (Failure::Generic {
            store: STORE@,
            message: "multipart upload state lock poisoned"@,
        }),
{
    store_failure("multipart upload state lock poisoned".to_owned())
}

/// A read without a condition is asked for without one, and a read with one is asked for under the
/// tags that the caller names.
pub proof fn law_condition_names_the_callers_tags(options: GetOptions)
    ensures
        get_condition(options) matches Some(condition) ==> condition.etag_matches == opt_text(
            options.if_match,
        ) && condition.etag_does_not_match == opt_text(options.if_none_match),
        get_condition(options) is None <==> options.unconditional(),
{
}

/// Only an overwriting write goes without a condition, and a creating write never replaces an
/// object: it is stopped by every tag, and fails as an object that exists.
pub proof fn law_only_overwrites_are_unconditional(location: Seq<char>, mode: PutMode)
    ensures
        put_condition(mode) is None <==> mode is Overwrite,
        mode is Create ==> put_condition(mode)->0.etag_does_not_match == Some("*"@) && stopped_put(
            location,
            mode,
        ) is AlreadyExists,
        mode is Update ==> stopped_put(location, mode) is Precondition,
{
}

/// An update is held to the tag that its caller names, whatever version the caller names beside it,
/// and to nothing else. One that names a version and no tag is refused, and no other update is.
pub proof fn law_updates_are_held_to_their_tag(
    e_tag: Option<String>,
    version: Option<String>,
    other: Option<String>,
)
    ensures
        put_mode_failure(PutMode::Update(UpdateVersion { e_tag, version })) is Some <==> version
            is Some && e_tag is None,
        put_mode_failure(
            PutMode::Update(UpdateVersion { e_tag, version }),
        ) matches Some(refusal) ==> refusal == (Failure::NotSupported {
            message: "R2 conditional update requires an ETag"@,
        }),
        put_condition(PutMode::Update(UpdateVersion { e_tag, version })) is Some,
        e_tag matches Some(tag) ==> put_condition(
            PutMode::Update(UpdateVersion { e_tag, version }),
        )->0.etag_matches == Some(tag@),
        e_tag is None ==> put_condition(
            PutMode::Update(UpdateVersion { e_tag, version }),
        )->0.etag_matches is None,
        put_condition(
            PutMode::Update(UpdateVersion { e_tag, version }),
        )->0.etag_does_not_match is None,
        put_condition(PutMode::Update(UpdateVersion { e_tag, version }))->0.uploaded_before is None,
        put_condition(PutMode::Update(UpdateVersion { e_tag, version }))->0.uploaded_after is None,
        put_condition(PutMode::Update(UpdateVersion { e_tag, version })) == put_condition(
            PutMode::Update(UpdateVersion { e_tag, version: other }),
        ),
{
}

/// Two updates are held to the same condition exactly where they name the same tag, or both none.
pub proof fn law_conditions_tell_tags_apart(left: UpdateVersion, right: UpdateVersion)
    ensures
        put_condition(PutMode::Update(left)) == put_condition(PutMode::Update(right)) <==> (match (
            left.e_tag,
            right.e_tag,
        ) {
            (Some(left), Some(right)) => left@ == right@,
            (None, None) => true,
            _ => false,
        }),
{
}

/// An overwriting write has no condition, a creating one only that no tag is there, and neither is
/// refused.
pub proof fn law_creations_are_held_to_every_tag()
    ensures
        put_mode_failure(PutMode::Overwrite) is None,
        put_mode_failure(PutMode::Create) is None,
        put_condition(PutMode::Overwrite) is None,
        put_condition(PutMode::Create) matches Some(condition) && condition.etag_does_not_match
            == Some("*"@) && condition.etag_matches is None && condition.uploaded_before is None
            && condition.uploaded_after is None,
{
}

/// A condition shows its texts and its points.
pub proof fn law_conditions_show_what_they_hold(conditional: Conditional)
    ensures
        opt_condition(None) is None,
        opt_condition(Some(conditional)) == Some(conditional@),
        conditional.etag_matches matches Some(tag) ==> conditional@.etag_matches == Some(tag@),
        conditional.etag_matches is None ==> conditional@.etag_matches is None,
        conditional.etag_does_not_match matches Some(tag) ==> conditional@.etag_does_not_match
            == Some(tag@),
        conditional.etag_does_not_match is None ==> conditional@.etag_does_not_match is None,
        conditional@.uploaded_before == conditional.uploaded_before,
        conditional@.uploaded_after == conditional.uploaded_after,
{
}

/// A read is asked for under a condition exactly where its caller names one: a tag to match, a tag
/// not to match, a point that the object must not have been stored after, a point that it must have
/// been stored after. Each is passed on by itself, a point in whole milliseconds, and one that is
/// not named is not made up.
pub proof fn law_reads_are_held_to_their_conditions(options: GetOptions)
    ensures
        get_condition(options) is None <==> options.if_match is None && options.if_none_match is None
            && options.if_modified_since is None && options.if_unmodified_since is None,
        get_condition(options) matches Some(condition) ==> {
            &&& options.if_match matches Some(tag) ==> condition.etag_matches == Some(tag@)
            &&& options.if_match is None ==> condition.etag_matches is None
            &&& options.if_none_match matches Some(tag) ==> condition.etag_does_not_match == Some(
                tag@,
            )
            &&& options.if_none_match is None ==> condition.etag_does_not_match is None
            &&& options.if_unmodified_since matches Some(time) ==> condition.uploaded_before
                == Some(wrapped_u64(time.seconds * 1000 + time.nanos as int / 1_000_000))
            &&& options.if_unmodified_since is None ==> condition.uploaded_before is None
            &&& options.if_modified_since matches Some(time) ==> condition.uploaded_after == Some(
                wrapped_u64(time.seconds * 1000 + time.nanos as int / 1_000_000),
            )
            &&& options.if_modified_since is None ==> condition.uploaded_after is None
        },
{
}

/// Only a read of no content, without a range and without a condition, asks for what is known of the
/// object alone.
pub proof fn law_plain_heads_ask_for_nothing_more(options: GetOptions)
    ensures
        is_plain_head(options) <==> options.head && options.range is None && get_condition(options)
            is None,
        options.if_match is Some || options.if_none_match is Some || options.if_modified_since
            is Some || options.if_unmodified_since is Some || options.range is Some || !options.head
            ==> !is_plain_head(options),
{
}

/// A read is not asked for where its range is bounded and empty, or longer than memory, and it fails
/// then as a failure of this store; every other read is asked for.
pub proof fn law_only_ranges_stop_a_request(options: GetOptions)
    ensures
        get_request_failure(options) is None <==> (options.range matches Some(
            GetRange::Bounded { start, end },
        ) ==> start < end && end - start <= usize::MAX),
        get_request_failure(options) matches Some(refusal) ==> (refusal
            matches Failure::Generic { store, message } && store == "cloudflare-r2"@ && Some(message)
            == range_fault(options.range->0)),
{
}

/// What is known of an object is what the bucket says of it, at the location that was asked for.
pub proof fn law_descriptions_say_what_the_bucket_says(location: Seq<char>, object: R2Object)
    ensures
        described(location, object).location == location,
        described(location, object).size == object.size,
        described(location, object).e_tag == Some(object.etag@),
        described(location, object).version == Some(object.version@),
        described(location, object).last_modified == stored_at(object.uploaded),
{
}

/// A page describes every object of the bucket's answer, one for one and in order, each under the
/// path of its key.
pub proof fn law_pages_describe_every_object(objects: Seq<R2Object>, at: int)
    requires
        0 <= at < objects.len(),
    ensures
        described_all(objects).len() == objects.len(),
        described_all(objects)[at].location == path_of(objects[at].key@),
        described_all(objects)[at].size == objects[at].size,
        described_all(objects)[at].e_tag == Some(objects[at].etag@),
        described_all(objects)[at].version == Some(objects[at].version@),
        described_all(objects)[at].last_modified == stored_at(objects[at].uploaded),
{
}

/// A read of nothing is a read of what is not found; a read of an object succeeds exactly where its
/// conditions and its range allow it and, if content was asked for, there is some. What fails it
/// first is named: the wanted object, then the changed one, then the range, then the content.
pub proof fn law_reads_fail_for_a_reason(
    location: Seq<char>,
    options: GetOptions,
    object: R2Object,
    has_body: bool,
)
    ensures
        get_failure(location, options, None, has_body) == Some(
            Failure::NotFound { path: location, message: "R2 object not found"@ },
        ),
        ({
            let tag = Some(object.etag@);
            let stored = stored_at(object.uploaded);
            let unwanted = is_unwanted(options, tag, stored);
            let unchanged = is_unchanged(options, tag, stored);
            let missed = selection_refusal(options.range, object.size) is Some;
            let bare = !options.head && !has_body;
            let failed = get_failure(location, options, Some(object), has_body);
            &&& failed is None <==> !unwanted && !unchanged && !missed && !bare
            &&& unwanted ==> (failed matches Some(Failure::Precondition { path, message }) && path
                == location && message == unwanted_words(options, tag, stored))
            &&& !unwanted && unchanged ==> (failed matches Some(
                Failure::NotModified { path, message },
            ) && path == location && message == unchanged_words(options, tag, stored))
            &&& !unwanted && !unchanged && missed ==> (failed matches Some(
                Failure::Generic { store, message },
            ) && store == "cloudflare-r2"@ && Some(message) == selection_refusal(
                options.range,
                object.size,
            ))
            &&& !unwanted && !unchanged && !missed && bare ==> (failed matches Some(
                Failure::Precondition { path, message },
            ) && path == location && message == "R2 returned metadata without a body"@)
        }),
{
}

} // verus!
