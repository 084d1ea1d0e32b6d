use slatedb_cloudflare::do_cache::DoCacheStorage;
use slatedb_cloudflare::names::names_a_database;
use slatedb_cloudflare::object::{
    arrive, authorized, dispatch, failed, handle, is_health_path, let_in, open_settings, query,
    route_segments, slatedb_error, validate_database_name, Action, Arrival, ObjectRequest, Refusal,
    SlateDbObject, StatusResponse, UrlParts, Verb,
};
use slatedb_cloudflare::rows::{
    done, put_row, read_limit, scan_limit, scan_range, text_bytes, value_response, PutRequest, Scan,
    ScanRange,
};
use slatedb_cloudflare::session::Opening;

fn refusal(refused: Refusal) -> (u16, String, bool) {
    (refused.status, refused.message, refused.json)
}

fn at(verb: Verb, tail: &str) -> Result<ObjectRequest, Refusal> {
    handle(verb, &format!("https://example.com/v1/db/tenant/{tail}"))
}

#[test]
fn health_is_public() {
    assert!(matches!(arrive("https://example.com"), Ok(Arrival::Health)));
    assert!(matches!(arrive("https://example.com/health?x=1"), Ok(Arrival::Health)));
    match arrive("https://example.com/health/") {
        Ok(Arrival::Guarded(path)) => assert_eq!(path, "/health/"),
        other => panic!("{other:?}"),
    }
    assert!(is_health_path("/"));
    assert!(!is_health_path(""));
    let (status, message, json) = refusal(arrive("nowhere").unwrap_err());
    assert_eq!((status, json), (500, false));
    assert_eq!(message, "failed to parse Url from relative URL without a base: nowhere");
}

#[test]
fn only_the_token_lets_in() {
    let path = "/v1/db/tenant/get";
    assert_eq!(let_in(path, "secret", Some("Bearer secret")).unwrap(), "tenant");
    for wrong in [None, Some("secret"), Some("Bearer"), Some("Bearer secre"), Some("bearer secret")] {
        assert_eq!(
            refusal(let_in(path, "secret", wrong).unwrap_err()),
            (401, "unauthorized".to_owned(), false)
        );
        assert_eq!(
            refusal(let_in("/nowhere", "secret", wrong).unwrap_err()),
            (401, "unauthorized".to_owned(), false)
        );
    }
    assert!(authorized("", Some("Bearer ")));
    assert!(!authorized("", None));
    assert_eq!(
        refusal(let_in("/nowhere", "secret", Some("Bearer secret")).unwrap_err()),
        (500, "route not found".to_owned(), false)
    );
    assert_eq!(
        refusal(let_in("/v1/db/a.b/get", "secret", Some("Bearer secret")).unwrap_err()),
        (500, "invalid database name".to_owned(), false)
    );
}

#[test]
fn routes_have_four_segments() {
    assert_eq!(route_segments("/v1/db/a/get").unwrap(), ["v1", "db", "a", "get"]);
    assert_eq!(
        route_segments("//v1/db/a/admin/cache/clear//").unwrap(),
        ["v1", "db", "a", "admin", "cache", "clear"]
    );
    for path in ["", "/", "/v1/db/a", "/v2/db/a/get", "/v1/database/a/get", "/v1//db/a/get"] {
        assert_eq!(route_segments(path).unwrap_err(), "route not found");
    }
}

#[test]
fn names_are_letters_digits_dashes_and_underscores() {
    assert!(validate_database_name("tenant_42-primary").is_ok());
    assert!(names_a_database(&"a".repeat(128)));
    for invalid in ["", "../escape", "has/slash", "has space", "é", &"a".repeat(129)] {
        assert_eq!(validate_database_name(invalid).unwrap_err(), "invalid database name");
    }
}

#[test]
fn every_route_has_its_action() {
    assert!(matches!(at(Verb::Post, "put").unwrap().action, Action::Put));
    assert!(matches!(at(Verb::Post, "delete").unwrap().action, Action::Delete));
    assert!(matches!(at(Verb::Post, "admin/reopen").unwrap().action, Action::Reopen));
    assert!(matches!(at(Verb::Post, "admin/flush").unwrap().action, Action::Flush));
    assert!(matches!(at(Verb::Post, "admin/cache/clear").unwrap().action, Action::ClearCache));
    assert!(matches!(at(Verb::Get, "stats").unwrap().action, Action::Stats));
    let request = at(Verb::Get, "get?key=a%20b&key=c").unwrap();
    assert_eq!(request.database, "tenant");
    match request.action {
        Action::Get { key } => assert_eq!(key, "a b"),
        other => panic!("{other:?}"),
    }
    for (verb, tail) in [
        (Verb::Get, "put"),
        (Verb::Post, "get"),
        (Verb::Other, "stats"),
        (Verb::Post, "admin"),
        (Verb::Post, "admin/cache"),
        (Verb::Post, "admin/cache/clear/all"),
        (Verb::Get, "unknown"),
    ] {
        assert_eq!(
            refusal(at(verb, tail).unwrap_err()),
            (404, "route not found".to_owned(), false)
        );
    }
}

#[test]
fn objects_refuse_in_json() {
    assert_eq!(
        refusal(at(Verb::Get, "get?prefix=a").unwrap_err()),
        (500, "missing query parameter: key".to_owned(), true)
    );
    assert_eq!(
        refusal(handle(Verb::Get, "https://example.com/v1/db/a").unwrap_err()),
        (500, "route not found".to_owned(), true)
    );
    assert_eq!(
        refusal(handle(Verb::Get, "https://example.com/v1/db/a%20b/stats").unwrap_err()),
        (500, "invalid database name".to_owned(), true)
    );
    assert_eq!(
        refusal(handle(Verb::Get, "nowhere").unwrap_err()),
        (
            500,
            "failed to parse Url from relative URL without a base: nowhere".to_owned(),
            true
        )
    );
    assert_eq!(refusal(failed("x".to_owned())), (500, "x".to_owned(), true));
    assert_eq!(slatedb_error("closed"), "SlateDB: closed");
}

#[test]
fn scans_read_prefix_and_limit() {
    for (tail, expected_prefix, expected_limit) in [
        ("scan", "", 100),
        ("scan?prefix=p%2F&limit=7", "p/", 7),
        ("scan?limit=0", "", 1),
        ("scan?limit=1001", "", 1000),
        ("scan?limit=%2B5", "", 5),
        ("scan?limit=-5", "", 100),
        ("scan?limit=99999999999999999999", "", 100),
        ("scan?limit=x&limit=5", "", 100),
    ] {
        match at(Verb::Get, tail).unwrap().action {
            Action::Scan { prefix, limit } => {
                assert_eq!((prefix.as_str(), limit), (expected_prefix, expected_limit))
            }
            other => panic!("{other:?}"),
        }
    }
    assert_eq!(scan_limit(None), 100);
    assert_eq!(read_limit(Some("12")), Some(12));
    assert_eq!(read_limit(None), None);
    assert!(matches!(scan_range(""), ScanRange::All));
    match scan_range("é") {
        ScanRange::Prefix(bytes) => assert_eq!(bytes, [0xc3, 0xa9]),
        other => panic!("{other:?}"),
    }
}

#[test]
fn parts_of_a_url_are_dispatched() {
    let parts = UrlParts {
        path: "/v1/db/a/get".to_owned(),
        query: vec![("key".to_owned(), "k".to_owned())],
    };
    assert!(matches!(
        dispatch(Verb::Get, &parts).unwrap().action,
        Action::Get { key } if key == "k"
    ));
    assert_eq!(query(&parts.query, "key").unwrap(), "k");
    assert_eq!(
        query(&parts.query, "other").unwrap_err(),
        "missing query parameter: other"
    );
}

#[test]
fn objects_hold_one_database() {
    let mut object = SlateDbObject::new();
    assert_eq!(object.database("a").unwrap(), Opening::Open);
    assert_eq!(object.status(0), StatusResponse { open: false, cache_populated: false });
    object.session.opened("a");
    assert_eq!(object.database("a").unwrap(), Opening::Current);
    assert_eq!(
        object.database("b").unwrap_err(),
        "Durable Object was routed with two database names"
    );
    assert_eq!(object.status(1), StatusResponse { open: true, cache_populated: true });
    assert!(object.session.take());
    assert!(!object.session.take());
    assert_eq!(object.database("b").unwrap(), Opening::Open);
    assert!(!DoCacheStorage::new().is_populated(0));
}

#[test]
fn text_reads_back() {
    let request = PutRequest { key: "kéy".to_owned(), value: "välue 💾".to_owned() };
    let (key, value) = put_row(&request);
    assert_eq!(key, "kéy".as_bytes());
    let response = value_response("kéy".to_owned(), &Some(value));
    assert_eq!(response.key, "kéy");
    assert_eq!(response.value.as_deref(), Some("välue 💾"));
    assert_eq!(value_response("k".to_owned(), &None).value, None);
    assert_eq!(
        value_response("k".to_owned(), &Some(vec![b'a', 0xff])).value.as_deref(),
        Some("a\u{fffd}")
    );
    assert_eq!(text_bytes("a"), b"a");
    assert!(done().ok);
}

#[test]
fn scans_stop_behind_their_limit() {
    for (rows, limit, expected, truncated) in [(0, 2, 0, false), (2, 2, 2, false), (5, 2, 2, true)] {
        let mut scan = Scan::new(limit);
        let mut next: u8 = 0;
        while scan.wants_more() && next < rows {
            scan.push(&vec![b'a' + next], &vec![b'A' + next]);
            next += 1;
        }
        assert_eq!(next as usize, (rows as usize).min(limit + 1));
        let response = scan.finish();
        assert_eq!(response.items.len(), expected);
        assert_eq!(response.truncated, truncated);
        if let Some(item) = response.items.first() {
            assert_eq!((item.key.as_str(), item.value.as_str()), ("a", "A"));
        }
    }
}

#[test]
fn objects_open_under_the_name_of_the_database() {
    let settings = open_settings("tenant");
    assert_eq!(settings.prefix, "tenant");
    assert_eq!(settings.root, "slatedb");
    assert_eq!(settings.cache_part_size, 1024 * 1024);
}
