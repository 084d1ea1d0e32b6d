use bytes::Bytes;
use object_store::PutPayload;
use slatedb_cloudflare::error::StoreError;
use slatedb_cloudflare::list::{next_list_cursor, ListPage, ListResult, ListStep, Listing};
use slatedb_cloudflare::multipart::{MultipartUpload, UploadedPart};
use slatedb_cloudflare::options::{GetOptions, ObjectMeta};
use slatedb_cloudflare::payload::{
    collect_payload, join_chunks, measured_payload, payload_size,
};
use slatedb_cloudflare::put::{
    copy_put_mode, failed_put_precondition, CopyMode, PutMode, UpdateVersion,
};
use slatedb_cloudflare::r2_store::{
    check_supported, get_outcome, get_request, list_page, multipart_lock_error, object_meta,
    put_conditional, put_outcome, returned_range, start_multipart, to_r2_range, R2Object, R2Request,
    R2Store,
};
use slatedb_cloudflare::range::{ByteRange, GetRange, R2Range};
use slatedb_cloudflare::time::{
    time_stored, unsigned_millis, Timestamp, MAX_SECONDS, MIN_SECONDS,
};

fn plain() -> GetOptions {
    GetOptions {
        if_match: None,
        if_none_match: None,
        if_modified_since: None,
        if_unmodified_since: None,
        range: None,
        version: None,
        head: false,
    }
}

fn stored(key: &str, size: u64) -> R2Object {
    R2Object {
        key: key.to_owned(),
        size,
        etag: "etag-1".to_owned(),
        version: "version-1".to_owned(),
        uploaded: 1_700_000_000_123,
    }
}

fn meta(location: &str) -> ObjectMeta {
    object_meta(location.to_owned(), &stored(location, 1))
}

fn page(locations: &[&str], cursor: Option<&str>) -> ListPage {
    ListPage {
        objects: locations.iter().map(|location| meta(location)).collect(),
        prefixes: Vec::new(),
        cursor: cursor.map(str::to_owned),
    }
}

fn generic_words(error: StoreError) -> String {
    match error {
        StoreError::Generic { store, message } => {
            assert_eq!(store, "cloudflare-r2");
            message
        }
        other => panic!("{other:?}"),
    }
}

#[test]
fn converts_all_range_shapes() {
    assert_eq!(
        returned_range(Some(&GetRange::Bounded { start: 2, end: 7 }), 10).unwrap(),
        ByteRange { start: 2, end: 7 }
    );
    assert_eq!(
        returned_range(Some(&GetRange::Offset(8)), 10).unwrap(),
        ByteRange { start: 8, end: 10 }
    );
    assert_eq!(
        returned_range(Some(&GetRange::Suffix(3)), 10).unwrap(),
        ByteRange { start: 7, end: 10 }
    );
}

#[test]
fn collects_chunked_payload_in_order() {
    let payload: PutPayload = vec![Bytes::from_static(b"ab"), Bytes::from_static(b"cd")]
        .into_iter()
        .collect();
    assert_eq!(collect_payload(payload), b"abcd");
}

#[test]
fn translates_conditional_writes_and_failures() {
    assert!(put_conditional(&PutMode::Overwrite).unwrap().is_none());

    let create = put_conditional(&PutMode::Create).unwrap().unwrap();
    assert_eq!(create.etag_does_not_match.as_deref(), Some("*"));
    assert!(matches!(
        failed_put_precondition("manifest", &PutMode::Create),
        StoreError::AlreadyExists { .. }
    ));

    let update = PutMode::Update(UpdateVersion {
        e_tag: Some("etag-1".to_owned()),
        version: None,
    });
    let conditional = put_conditional(&update).unwrap().unwrap();
    assert_eq!(conditional.etag_matches.as_deref(), Some("etag-1"));
    assert!(matches!(
        failed_put_precondition("manifest", &update),
        StoreError::Precondition { .. }
    ));

    let version_only = PutMode::Update(UpdateVersion {
        e_tag: None,
        version: Some("version-1".to_owned()),
    });
    assert!(matches!(
        put_conditional(&version_only),
        Err(StoreError::NotSupported { .. })
    ));
}

#[test]
fn pagination_uses_cursor_only_for_truncated_pages() {
    assert_eq!(
        next_list_cursor(true, Some("next".to_owned())).as_deref(),
        Some("next")
    );
    assert_eq!(next_list_cursor(false, Some("stale".to_owned())), None);
    assert_eq!(next_list_cursor(true, None), None);
}

#[test]
fn update_without_any_state_has_an_empty_condition() {
    let mode = PutMode::Update(UpdateVersion { e_tag: None, version: None });
    let conditional = put_conditional(&mode).unwrap().unwrap();
    assert_eq!(conditional.etag_matches, None);
    assert_eq!(conditional.etag_does_not_match, None);
    assert_eq!(conditional.uploaded_before, None);
    assert_eq!(conditional.uploaded_after, None);
}

#[test]
fn payloads_know_their_size() {
    let payload: PutPayload = vec![Bytes::from_static(b"ab"), Bytes::from_static(b"cde")]
        .into_iter()
        .collect();
    assert_eq!(payload_size(&payload), 5);
    assert_eq!(measured_payload(&payload), Some(5));
    assert_eq!(measured_payload(&PutPayload::new()), Some(0));
    assert_eq!(payload_size(&PutPayload::new()), 0);
    let chunks = vec![Bytes::from_static(&[1]), Bytes::new(), Bytes::from_static(&[2, 3])];
    assert_eq!(join_chunks(&chunks), vec![1, 2, 3]);
}

#[test]
fn writes_report_what_the_bucket_says() {
    let result = put_outcome("a", &PutMode::Create, Some(stored("a", 1))).unwrap();
    assert_eq!(result.e_tag.as_deref(), Some("etag-1"));
    assert_eq!(result.version.as_deref(), Some("version-1"));
    match put_outcome("a", &PutMode::Create, None) {
        Err(StoreError::AlreadyExists { path, message }) => {
            assert_eq!(path, "a");
            assert_eq!(message, "R2 create precondition failed");
        }
        other => panic!("{other:?}"),
    }
    match put_outcome("a", &PutMode::Overwrite, None) {
        Err(StoreError::Precondition { path, message }) => {
            assert_eq!(path, "a");
            assert_eq!(message, "R2 update precondition failed");
        }
        other => panic!("{other:?}"),
    }
}

#[test]
fn copies_write_in_their_mode() {
    assert!(matches!(copy_put_mode(CopyMode::Overwrite), PutMode::Overwrite));
    assert!(matches!(copy_put_mode(CopyMode::Create), PutMode::Create));
}

#[test]
fn ranges_are_sent_in_the_form_of_the_bucket() {
    assert_eq!(
        to_r2_range(&GetRange::Bounded { start: 2, end: 7 }).unwrap(),
        R2Range::OffsetWithLength { offset: 2, length: 5 }
    );
    assert_eq!(
        to_r2_range(&GetRange::Offset(8)).unwrap(),
        R2Range::OffsetToEnd { offset: 8 }
    );
    assert_eq!(to_r2_range(&GetRange::Suffix(3)).unwrap(), R2Range::Suffix { suffix: 3 });
    assert_eq!(
        generic_words(to_r2_range(&GetRange::Bounded { start: 7, end: 7 }).unwrap_err()),
        "Range started at 7 and ended at 7"
    );
}

#[test]
fn ranges_are_cut_at_the_end_of_the_object() {
    assert_eq!(
        returned_range(Some(&GetRange::Bounded { start: 2, end: 70 }), 10).unwrap(),
        ByteRange { start: 2, end: 10 }
    );
    assert_eq!(
        returned_range(Some(&GetRange::Suffix(30)), 10).unwrap(),
        ByteRange { start: 0, end: 10 }
    );
    assert_eq!(
        returned_range(Some(&GetRange::Suffix(3)), 0).unwrap(),
        ByteRange { start: 0, end: 0 }
    );
    assert_eq!(returned_range(None, 10).unwrap(), ByteRange { start: 0, end: 10 });
    assert_eq!(
        generic_words(returned_range(Some(&GetRange::Offset(10)), 10).unwrap_err()),
        "Wanted range starting at 10, but object was only 10 bytes long"
    );
}

#[test]
fn versioned_reads_are_not_supported() {
    assert!(check_supported(&plain()).is_ok());
    let options = GetOptions { version: Some("v".to_owned()), ..plain() };
    match check_supported(&options) {
        Err(StoreError::NotSupported { message }) => {
            assert_eq!(message, "R2 Workers bindings do not expose versioned GET")
        }
        other => panic!("{other:?}"),
    }
}

#[test]
fn only_plain_heads_ask_for_a_head() {
    let head = GetOptions { head: true, ..plain() };
    assert!(matches!(get_request(&head), Ok(R2Request::Head)));
    let ranged = GetOptions { head: true, range: Some(GetRange::Offset(1)), ..plain() };
    match get_request(&ranged) {
        Ok(R2Request::Get { conditional: None, range }) => {
            assert_eq!(range, Some(R2Range::OffsetToEnd { offset: 1 }))
        }
        other => panic!("{other:?}"),
    }
    let conditional = GetOptions {
        if_match: Some("a".to_owned()),
        if_modified_since: Some(Timestamp { seconds: -1, nanos: 999_000_000 }),
        if_unmodified_since: Some(Timestamp { seconds: 2, nanos: 5_999_999 }),
        ..plain()
    };
    match get_request(&conditional) {
        Ok(R2Request::Get { conditional: Some(conditional), range: None }) => {
            assert_eq!(conditional.etag_matches.as_deref(), Some("a"));
            assert_eq!(conditional.etag_does_not_match, None);
            assert_eq!(conditional.uploaded_after, Some(u64::MAX));
            assert_eq!(conditional.uploaded_before, Some(2005));
        }
        other => panic!("{other:?}"),
    }
    let backwards = GetOptions { range: Some(GetRange::Bounded { start: 3, end: 2 }), ..plain() };
    assert!(matches!(get_request(&backwards), Err(StoreError::Generic { .. })));
}

#[test]
fn reads_fail_in_order() {
    match get_outcome("a", &plain(), None, true) {
        Err(StoreError::NotFound { path, message }) => {
            assert_eq!(path, "a");
            assert_eq!(message, "R2 object not found");
        }
        other => panic!("{other:?}"),
    }
    let unwanted = GetOptions { if_match: Some("x, y".to_owned()), ..plain() };
    match get_outcome("a", &unwanted, Some(stored("a", 5)), true) {
        Err(StoreError::Precondition { path, message }) => {
            assert_eq!(path, "a");
            assert_eq!(message, "etag-1 does not match x, y");
        }
        other => panic!("{other:?}"),
    }
    let unchanged = GetOptions { if_none_match: Some("x , etag-1".to_owned()), ..plain() };
    match get_outcome("a", &unchanged, Some(stored("a", 5)), true) {
        Err(StoreError::NotModified { path, message }) => {
            assert_eq!(path, "a");
            assert_eq!(message, "etag-1 matches x , etag-1");
        }
        other => panic!("{other:?}"),
    }
    let beyond = GetOptions { range: Some(GetRange::Offset(5)), ..plain() };
    assert!(matches!(
        get_outcome("a", &beyond, Some(stored("a", 5)), true),
        Err(StoreError::Generic { .. })
    ));
    match get_outcome("a", &plain(), Some(stored("a", 5)), false) {
        Err(StoreError::Precondition { message, .. }) => {
            assert_eq!(message, "R2 returned metadata without a body")
        }
        other => panic!("{other:?}"),
    }
}

#[test]
fn reads_report_the_object_and_the_range() {
    let options = GetOptions {
        if_match: Some("a, etag-1".to_owned()),
        range: Some(GetRange::Bounded { start: 1, end: 3 }),
        ..plain()
    };
    let read = get_outcome("a", &options, Some(stored("a", 5)), true).unwrap();
    assert!(read.read_body);
    assert_eq!(read.range, ByteRange { start: 1, end: 3 });
    assert_eq!(read.meta.location, "a");
    assert_eq!(read.meta.size, 5);
    assert_eq!(read.meta.e_tag.as_deref(), Some("etag-1"));
    assert_eq!(
        read.meta.last_modified,
        Timestamp { seconds: 1_700_000_000, nanos: 123_000_000 }
    );
    let head = GetOptions { head: true, ..plain() };
    let read = get_outcome("a", &head, Some(stored("a", 5)), false).unwrap();
    assert!(!read.read_body);
    assert_eq!(read.range, ByteRange { start: 0, end: 5 });
}

#[test]
fn date_conditions_yield_to_tag_conditions() {
    let late = Timestamp { seconds: 1_800_000_000, nanos: 0 };
    let early = Timestamp { seconds: 1_600_000_000, nanos: 0 };
    let unmodified = GetOptions { if_unmodified_since: Some(early), ..plain() };
    match get_outcome("a", &unmodified, Some(stored("a", 5)), true) {
        Err(StoreError::Precondition { message, .. }) => {
            assert_eq!(message, "2020-09-13 12:26:40 UTC < 2023-11-14 22:13:20.123 UTC")
        }
        other => panic!("{other:?}"),
    }
    let tagged = GetOptions {
        if_match: Some("*".to_owned()),
        if_unmodified_since: Some(early),
        ..plain()
    };
    assert!(get_outcome("a", &tagged, Some(stored("a", 5)), true).is_ok());
    let modified = GetOptions { if_modified_since: Some(late), ..plain() };
    assert!(matches!(
        get_outcome("a", &modified, Some(stored("a", 5)), true),
        Err(StoreError::NotModified { .. })
    ));
    let modified = GetOptions { if_modified_since: Some(early), ..plain() };
    assert!(get_outcome("a", &modified, Some(stored("a", 5)), true).is_ok());
    let exact = Timestamp { seconds: 1_700_000_000, nanos: 123_000_000 };
    let same = GetOptions { if_unmodified_since: Some(exact), ..plain() };
    assert!(get_outcome("a", &same, Some(stored("a", 5)), true).is_ok());
    let same = GetOptions { if_modified_since: Some(exact), ..plain() };
    assert!(get_outcome("a", &same, Some(stored("a", 5)), true).is_err());
}

#[test]
fn milliseconds_read_back() {
    for time in [
        Timestamp { seconds: 0, nanos: 0 },
        Timestamp { seconds: -1, nanos: 1_000_000 },
        Timestamp { seconds: 1_700_000_000, nanos: 123_000_000 },
    ] {
        assert_eq!(time_stored(unsigned_millis(time)), time);
    }
    let last = Timestamp { seconds: MAX_SECONDS, nanos: 999_000_000 };
    assert_eq!(time_stored(unsigned_millis(last)), last);
    let first = Timestamp { seconds: MIN_SECONDS, nanos: 0 };
    assert_eq!(time_stored(unsigned_millis(first)), first);
    let epoch = Timestamp { seconds: 0, nanos: 0 };
    assert_eq!(time_stored(unsigned_millis(last) + 1), epoch);
    assert_eq!(time_stored(unsigned_millis(first) - 1), epoch);
    assert_eq!(time_stored(i64::MAX as u64), epoch);
    assert_eq!(time_stored(1 << 63), epoch);
}

#[test]
fn pages_make_paths_of_keys_and_folders() {
    let objects = vec![stored("a/b.sst", 3), stored("with space//x", 4)];
    let prefixes = vec!["a/".to_owned(), "b//".to_owned(), "c".to_owned()];
    let page = list_page(&objects, &prefixes, true, Some("next".to_owned()));
    assert_eq!(page.objects.len(), 2);
    assert_eq!(page.objects[0].location, "a/b.sst");
    assert_eq!(page.objects[0].size, 3);
    assert_eq!(page.objects[1].location, "with space/x");
    assert_eq!(page.prefixes, ["a", "b", "c"]);
    assert_eq!(page.cursor.as_deref(), Some("next"));
    assert_eq!(list_page(&objects, &prefixes, false, Some("stale".to_owned())).cursor, None);
}

#[test]
fn listings_hand_out_every_object_once() {
    let mut pages = vec![
        page(&["a", "b"], Some("1")),
        page(&[], Some("2")),
        page(&["c"], None),
    ]
    .into_iter();
    let mut cursors = Vec::new();
    let mut found = Vec::new();
    let mut listing = Listing::new();
    loop {
        match listing.advance() {
            ListStep::Item(item) => found.push(item.location),
            ListStep::Fetch(cursor) => {
                cursors.push(cursor);
                listing.receive(pages.next().unwrap());
            }
            ListStep::End => break,
        }
    }
    assert_eq!(found, ["a", "b", "c"]);
    assert_eq!(cursors, [None, Some("1".to_owned()), Some("2".to_owned())]);

    let mut all = ListResult::new();
    assert_eq!(all.extend(page(&["a", "b"], Some("1"))).as_deref(), Some("1"));
    assert_eq!(all.extend(page(&["c"], None)), None);
    let found: Vec<_> = all.objects.iter().map(|object| object.location.as_str()).collect();
    assert_eq!(found, ["a", "b", "c"]);
    assert!(all.common_prefixes.is_empty());
}

#[test]
fn uploads_number_parts_and_complete_in_order() {
    let mut upload = start_multipart("a");
    assert_eq!(upload.put_part().unwrap(), 1);
    assert_eq!(upload.put_part().unwrap(), 2);
    assert_eq!(upload.put_part().unwrap(), 3);
    for part_number in [2, 3, 1] {
        upload.report_part(UploadedPart { part_number, etag: format!("e{part_number}") });
    }
    let parts = upload.complete().unwrap();
    let etags: Vec<_> = parts.iter().map(|part| part.etag.as_str()).collect();
    assert_eq!(etags, ["e1", "e2", "e3"]);
    match upload.put_part() {
        Err(StoreError::Precondition { path, message }) => {
            assert_eq!(path, "a");
            assert_eq!(message, "multipart upload already finished");
        }
        other => panic!("{other:?}"),
    }
    assert!(upload.complete().is_err());
    assert!(upload.abort().is_err());
}

#[test]
fn uploads_have_at_most_ten_thousand_parts() {
    let mut upload = start_multipart("a");
    for part_number in 1..=10_000 {
        assert_eq!(upload.put_part().unwrap(), part_number);
    }
    match upload.put_part() {
        Err(StoreError::NotSupported { message }) => {
            assert_eq!(message, "R2 multipart uploads support at most 10,000 parts")
        }
        other => panic!("{other:?}"),
    }
    assert!(upload.abort().is_ok());
    assert!(matches!(upload.put_part(), Err(StoreError::Precondition { .. })));
    let mut other = MultipartUpload::new("b", "too many");
    assert!(other.complete().unwrap().is_empty());
}

#[test]
fn stores_name_themselves() {
    assert_eq!(R2Store::new("SLATEDB_BUCKET").label(), "R2(SLATEDB_BUCKET)");
    assert_eq!(
        generic_words(multipart_lock_error()),
        "multipart upload state lock poisoned"
    );
}

#[test]
fn folders_of_every_page_are_found() {
    let folders = |prefixes: &[&str], cursor: Option<&str>| ListPage {
        objects: Vec::new(),
        prefixes: prefixes.iter().map(|prefix| prefix.to_string()).collect(),
        cursor: cursor.map(str::to_owned),
    };
    let mut found = ListResult::new();
    found.extend(folders(&["a", "b"], Some("1")));
    found.extend(folders(&[], Some("2")));
    found.extend(folders(&["c"], None));
    assert_eq!(found.common_prefixes, ["a", "b", "c"]);
}
