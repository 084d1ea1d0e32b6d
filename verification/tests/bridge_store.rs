use slatedb_cloudflare::binding_store::{
    get_outcome, list_page, multipart_lock_error, read_outcome, returned_range, start_multipart,
    BindingStore, BindingStoreCounters, ListObject,
};
use slatedb_cloudflare::bridge::{
    abort_request, check_response, complete_request, header_value, object_meta, part_request,
    put_result, range_header, required_header, BridgeRequest, BridgeResponse, Method,
};
use slatedb_cloudflare::error::StoreError;
use slatedb_cloudflare::options::GetOptions;
use slatedb_cloudflare::put::{PutMode, UpdateVersion};
use slatedb_cloudflare::range::{ByteRange, GetRange};
use slatedb_cloudflare::time::Timestamp;

fn plain() -> GetOptions {
    GetOptions {
        if_match: None,
        if_none_match: None,
        if_modified_since: None,
        if_unmodified_since: None,
        range: None,
        version: None,
        head: false,
    }
}

fn response(status: u16, headers: &[(&str, &[u8])]) -> BridgeResponse {
    BridgeResponse {
        status,
        headers: headers
            .iter()
            .map(|(name, value)| (name.to_string(), value.to_vec()))
            .collect(),
        detail: "why".to_owned(),
    }
}

fn object(status: u16) -> BridgeResponse {
    response(
        status,
        &[
            ("x-slate-size", b"10"),
            ("x-slate-uploaded", b"2023-11-14T22:13:20.5Z"),
            ("etag", b"tag"),
            ("x-slate-version", b"v"),
        ],
    )
}

fn store() -> BindingStore {
    BindingStore::new(BindingStoreCounters::default())
}

fn pairs(pairs: &[(String, String)]) -> Vec<(&str, &str)> {
    pairs.iter().map(|(name, value)| (name.as_str(), value.as_str())).collect()
}

fn words(error: StoreError) -> String {
    match error {
        StoreError::Generic { store, message } => {
            assert_eq!(store, "cloudflare-r2-binding");
            message
        }
        other => panic!("{other:?}"),
    }
}

#[test]
fn formats_all_range_shapes() {
    assert_eq!(
        range_header(&GetRange::Bounded { start: 2, end: 7 }).unwrap(),
        "bytes=2-6"
    );
    assert_eq!(range_header(&GetRange::Offset(8)).unwrap(), "bytes=8-");
    assert_eq!(range_header(&GetRange::Suffix(3)).unwrap(), "bytes=-3");
}

#[test]
fn counter_snapshot_uses_benchmark_names() {
    let mut counters = BindingStoreCounters::default();
    counters.gets = 2;
    assert_eq!(counters.snapshot()["r2Gets"], 2);
}

#[test]
fn snapshots_hold_every_counter() {
    let counters = BindingStoreCounters {
        gets: 1,
        heads: 2,
        puts: 3,
        lists: 4,
        deletes: 5,
        multipart_uploads: 6,
        multipart_parts: 7,
        multipart_completes: 8,
        read_bytes: 9,
        written_bytes: 10,
        errors: 11,
    };
    let snapshot = counters.snapshot();
    let expected = [
        ("r2Gets", 1),
        ("r2Heads", 2),
        ("r2Puts", 3),
        ("r2Lists", 4),
        ("r2Deletes", 5),
        ("r2MultipartUploads", 6),
        ("r2MultipartParts", 7),
        ("r2MultipartCompletes", 8),
        ("r2ReadBytes", 9),
        ("r2WrittenBytes", 10),
        ("r2Errors", 11),
    ];
    assert_eq!(snapshot.len(), expected.len());
    for (name, count) in expected {
        assert_eq!(snapshot[name], count);
    }
}

#[test]
fn empty_ranges_are_refused() {
    assert_eq!(
        words(range_header(&GetRange::Bounded { start: 7, end: 2 }).unwrap_err()),
        "Range started at 7 and ended at 2"
    );
    assert_eq!(
        returned_range(Some(&GetRange::Offset(8)), 10).unwrap(),
        ByteRange { start: 8, end: 10 }
    );
    assert_eq!(returned_range(None, 3).unwrap(), ByteRange { start: 0, end: 3 });
    assert_eq!(
        words(returned_range(Some(&GetRange::Offset(3)), 3).unwrap_err()),
        "Wanted range starting at 3, but object was only 3 bytes long"
    );
}

#[test]
fn writes_carry_their_condition() {
    let mut store = store();
    let request = store.put_request("a/b", &PutMode::Overwrite).unwrap();
    assert_eq!(request.method, Method::Put);
    assert_eq!(pairs(&request.headers), [("x-slate-path", "a/b")]);
    let request = store.put_request("a", &PutMode::Create).unwrap();
    assert_eq!(pairs(&request.headers), [("x-slate-path", "a"), ("if-none-match", "*")]);
    let update = PutMode::Update(UpdateVersion { e_tag: Some("t".to_owned()), version: None });
    let request = store.put_request("a", &update).unwrap();
    assert_eq!(pairs(&request.headers), [("x-slate-path", "a"), ("if-match", "t")]);
    let stateless = PutMode::Update(UpdateVersion { e_tag: None, version: None });
    match store.put_request("a", &stateless) {
        Err(StoreError::NotSupported { message }) => {
            assert_eq!(message, "R2 conditional update requires an ETag")
        }
        other => panic!("{other:?}"),
    }
    assert_eq!(store.counters.puts, 4);
}

#[test]
fn writes_count_bytes_or_errors() {
    let mut store = store();
    let result = store.put_outcome("a", &PutMode::Overwrite, 7, &object(200)).unwrap();
    assert_eq!(result.e_tag.as_deref(), Some("tag"));
    assert_eq!(result.version.as_deref(), Some("v"));
    assert_eq!(store.counters.written_bytes, 7);
    assert!(matches!(
        store.put_outcome("a", &PutMode::Create, 7, &object(412)),
        Err(StoreError::AlreadyExists { .. })
    ));
    assert!(matches!(
        store.put_outcome("a", &PutMode::Overwrite, 7, &object(412)),
        Err(StoreError::Precondition { .. })
    ));
    assert_eq!(store.counters.errors, 2);
    let error = store.put_outcome("a", &PutMode::Overwrite, 7, &object(503)).unwrap_err();
    assert_eq!(words(error), "R2 binding bridge returned 503 Service Unavailable: why");
    assert_eq!(store.counters.written_bytes, 7);
    assert_eq!(store.counters.errors, 2);
}

#[test]
fn requests_that_do_not_get_through_are_counted() {
    let mut store = store();
    assert_eq!(words(store.failed("refused".to_owned())), "refused");
    assert_eq!(store.counters.errors, 1);
    store.counters.errors = u64::MAX;
    store.failed("again".to_owned());
    assert_eq!(store.counters.errors, 0);
}

#[test]
fn reads_ask_for_everything_that_they_name() {
    let mut store = store();
    let options = GetOptions {
        if_match: Some("a".to_owned()),
        if_none_match: Some("b".to_owned()),
        if_modified_since: Some(Timestamp { seconds: 0, nanos: 0 }),
        if_unmodified_since: Some(Timestamp { seconds: 1_700_000_000, nanos: 0 }),
        range: Some(GetRange::Suffix(4)),
        ..plain()
    };
    let request = store.get_request("p", &options).unwrap();
    assert_eq!(request.method, Method::Get);
    assert_eq!(
        pairs(&request.headers),
        [
            ("x-slate-path", "p"),
            ("if-match", "a"),
            ("if-none-match", "b"),
            ("if-modified-since", "Thu, 1 Jan 1970 00:00:00 +0000"),
            ("if-unmodified-since", "Tue, 14 Nov 2023 22:13:20 +0000"),
            ("range", "bytes=-4"),
        ]
    );
    let head = GetOptions { head: true, ..plain() };
    let request = store.get_request("p", &head).unwrap();
    assert_eq!(request.method, Method::Head);
    assert_eq!(pairs(&request.headers), [("x-slate-path", "p")]);
    let versioned = GetOptions { version: Some("v".to_owned()), ..plain() };
    assert!(matches!(
        store.get_request("p", &versioned),
        Err(StoreError::NotSupported { .. })
    ));
    let backwards = GetOptions { range: Some(GetRange::Bounded { start: 1, end: 1 }), ..plain() };
    assert!(matches!(
        store.get_request("p", &backwards),
        Err(StoreError::Generic { .. })
    ));
    assert_eq!((store.counters.gets, store.counters.heads), (3, 1));
}

#[test]
fn reads_fail_by_status() {
    match get_outcome("p", &plain(), &object(404)) {
        Err(StoreError::NotFound { path, message }) => {
            assert_eq!((path.as_str(), message.as_str()), ("p", "R2 object not found"))
        }
        other => panic!("{other:?}"),
    }
    match get_outcome("p", &plain(), &object(412)) {
        Err(StoreError::Precondition { path, message }) => {
            assert_eq!((path.as_str(), message.as_str()), ("p", "R2 read precondition failed"))
        }
        other => panic!("{other:?}"),
    }
    match get_outcome("p", &plain(), &object(304)) {
        Err(StoreError::NotModified { path, message }) => {
            assert_eq!((path.as_str(), message.as_str()), ("p", "R2 object was not modified"))
        }
        other => panic!("{other:?}"),
    }
    assert_eq!(
        words(get_outcome("p", &plain(), &object(599)).unwrap_err()),
        "R2 binding bridge returned 599 <unknown status code>: why"
    );
}

#[test]
fn reads_report_the_bridged_object() {
    let options = GetOptions { range: Some(GetRange::Offset(4)), ..plain() };
    let read = get_outcome("p", &options, &object(206)).unwrap();
    assert_eq!(read.meta.location, "p");
    assert_eq!(read.meta.size, 10);
    assert_eq!(
        read.meta.last_modified,
        Timestamp { seconds: 1_700_000_000, nanos: 500_000_000 }
    );
    assert_eq!(read.range, ByteRange { start: 4, end: 10 });
    assert!(read.read_body);
    let unwanted = GetOptions { if_match: Some("other".to_owned()), ..plain() };
    assert!(matches!(
        get_outcome("p", &unwanted, &object(200)),
        Err(StoreError::Precondition { .. })
    ));
    let unchanged = GetOptions { if_none_match: Some("tag".to_owned()), ..plain() };
    assert!(matches!(
        get_outcome("p", &unchanged, &object(200)),
        Err(StoreError::NotModified { .. })
    ));
    let beyond = GetOptions { range: Some(GetRange::Offset(10)), ..plain() };
    assert!(matches!(
        get_outcome("p", &beyond, &object(200)),
        Err(StoreError::Generic { .. })
    ));
}

#[test]
fn headers_must_be_there_and_be_text() {
    let bare = response(200, &[]);
    assert_eq!(header_value(&bare, "etag").unwrap(), None);
    assert_eq!(
        words(required_header(&bare, "x-slate-size").unwrap_err()),
        "missing x-slate-size header"
    );
    let twice = response(200, &[("etag", b"first"), ("etag", b"second")]);
    assert_eq!(header_value(&twice, "etag").unwrap().as_deref(), Some("first"));
    let high = response(200, &[("etag", &[0xc3, 0xa9])]);
    assert_eq!(
        words(header_value(&high, "etag").unwrap_err()),
        "failed to convert header to a str"
    );
    let control = response(200, &[("etag", &[0])]);
    assert_eq!(
        words(put_result(&control).unwrap_err()),
        "failed to parse header value"
    );
    let sized = response(200, &[("x-slate-size", b"+7"), ("x-slate-uploaded", b"soon")]);
    assert!(object_meta("p".to_owned(), &sized).is_err());
    let unsized_object = response(200, &[("x-slate-size", b"-7")]);
    assert_eq!(
        words(object_meta("p".to_owned(), &unsized_object).unwrap_err()),
        "invalid digit found in string"
    );
    let plus = response(
        200,
        &[("x-slate-size", b"+7"), ("x-slate-uploaded", b"2023-11-14T22:13:20Z")],
    );
    let meta = object_meta("p".to_owned(), &plus).unwrap();
    assert_eq!((meta.size, meta.e_tag, meta.version), (7, None, None));
}

#[test]
fn only_success_passes() {
    for status in [200, 204, 299] {
        assert!(check_response(&response(status, &[])).is_ok());
    }
    for status in [100, 199, 300, 404, 999] {
        assert!(check_response(&response(status, &[])).is_err());
    }
}

#[test]
fn listings_ask_for_what_is_given() {
    let mut store = store();
    let request: BridgeRequest = store.list_request(&None, &None, &None);
    assert_eq!(request.method, Method::Get);
    assert_eq!(pairs(&request.headers), [("x-slate-operation", "list")]);
    assert!(request.query.is_empty());
    let request = store.list_request(
        &Some("p".to_owned()),
        &Some("c".to_owned()),
        &Some("/".to_owned()),
    );
    assert_eq!(
        pairs(&request.query),
        [("prefix", "p"), ("cursor", "c"), ("delimiter", "/")]
    );
    assert_eq!(store.counters.lists, 2);
}

fn listed(key: &str) -> ListObject {
    ListObject {
        key: key.to_owned(),
        size: 3,
        etag: "t".to_owned(),
        version: "v".to_owned(),
        uploaded: Timestamp { seconds: 5, nanos: 6 },
    }
}

#[test]
fn pages_are_refused_for_a_key_that_is_no_path() {
    let prefixes = vec!["x/".to_owned()];
    let page = list_page(vec![listed("/a/b/"), listed("c d")], &prefixes, None).unwrap();
    assert_eq!(page.objects[0].location, "a/b");
    assert_eq!(page.objects[0].last_modified, Timestamp { seconds: 5, nanos: 6 });
    assert_eq!(page.objects[1].location, "c d");
    assert_eq!(page.prefixes, ["x"]);
    assert_eq!(page.cursor, None);
    let page = list_page(vec![listed("a"), listed("b//c")], &prefixes, Some("n".to_owned()));
    assert!(words(page.unwrap_err()).contains("b//c"));
    assert!(list_page(vec![listed("..")], &prefixes, None).is_err());
}

#[test]
fn uploads_through_the_bridge_carry_their_identity() {
    let mut store = store();
    let request = store.start_request("p");
    assert_eq!(request.method, Method::Post);
    assert_eq!(
        pairs(&request.headers),
        [("x-slate-path", "p"), ("x-slate-operation", "multipart-start")]
    );
    let request = part_request("p", "id", 12);
    assert_eq!(request.method, Method::Put);
    assert_eq!(
        pairs(&request.headers),
        [
            ("x-slate-path", "p"),
            ("x-slate-operation", "multipart-part"),
            ("x-slate-upload-id", "id"),
            ("x-slate-part-number", "12"),
        ]
    );
    store.part_taken(100);
    let request = complete_request("p", "id");
    assert_eq!(request.method, Method::Post);
    assert_eq!(request.headers[1].1, "multipart-complete");
    assert!(store.complete_outcome(&object(500)).is_err());
    assert_eq!(store.counters.multipart_completes, 0);
    assert!(store.complete_outcome(&object(200)).is_ok());
    let request = abort_request("p", "id");
    assert_eq!(request.method, Method::Delete);
    assert_eq!(request.headers[1].1, "multipart-abort");
    let request = store.delete_request("p");
    assert_eq!(request.method, Method::Delete);
    assert_eq!(pairs(&request.headers), [("x-slate-path", "p")]);
    store.bytes_read(3);
    store.bytes_read(4);
    let counters = &store.counters;
    assert_eq!(counters.multipart_uploads, 1);
    assert_eq!(counters.multipart_parts, 1);
    assert_eq!(counters.multipart_completes, 1);
    assert_eq!(counters.written_bytes, 100);
    assert_eq!(counters.deletes, 1);
    assert_eq!(counters.read_bytes, 7);
    assert_eq!(store.label(), "CloudflareR2Binding");
}

#[test]
fn bridged_uploads_have_at_most_ten_thousand_parts() {
    let mut upload = start_multipart("p");
    for _ in 0..10_000 {
        upload.put_part().unwrap();
    }
    match upload.put_part() {
        Err(StoreError::NotSupported { message }) => {
            assert_eq!(message, "R2 supports at most 10,000 multipart parts")
        }
        other => panic!("{other:?}"),
    }
    assert_eq!(words(multipart_lock_error()), "multipart state lock poisoned");
}

#[test]
fn reads_of_a_known_object_are_decided_by_conditions_and_range() {
    let meta = || object_meta("p".to_owned(), &object(200)).unwrap();
    let read = read_outcome("p", &plain(), meta()).unwrap();
    assert_eq!(read.range, ByteRange { start: 0, end: 10 });
    let since = GetOptions {
        if_modified_since: Some(Timestamp { seconds: 1_800_000_000, nanos: 0 }),
        ..plain()
    };
    assert!(matches!(
        read_outcome("p", &since, meta()),
        Err(StoreError::NotModified { .. })
    ));
    let suffix = GetOptions { head: true, range: Some(GetRange::Suffix(0)), ..plain() };
    let read = read_outcome("p", &suffix, meta()).unwrap();
    assert_eq!(read.range, ByteRange { start: 10, end: 10 });
    assert!(!read.read_body);
}
