use std::path::Path;

use slatedb_cloudflare::benchmark::{
    merge_clients, validate_batch, BenchmarkBatchRequest, BenchmarkBatchResponse,
    BenchmarkOperation, BenchmarkOperationKind, BenchmarkOperationMeasurements,
};
use slatedb_cloudflare::container::{
    cache_dir, cache_removed, database_settings, directory_size, required_env,
    validate_database_name, Config, Container, Removal, Tree, Variables, CACHE_ROOT,
};
use slatedb_cloudflare::session::Opening;

#[test]
fn database_names_are_safe_for_routing_and_cache_paths() {
    assert!(validate_database_name("tenant_42-primary").is_ok());
    for invalid in ["", "../escape", "has/slash", "has space", "💾"] {
        assert!(
            validate_database_name(invalid).is_err(),
            "accepted {invalid:?}"
        );
    }
    assert_eq!(
        Path::new(&cache_dir("tenant_42-primary")),
        Path::new(CACHE_ROOT).join("tenant_42-primary")
    );
}

#[test]
fn benchmark_measurements_merge_without_losing_samples() {
    let mut left = BenchmarkOperationMeasurements::default();
    left.record(10);
    let mut right = BenchmarkOperationMeasurements::default();
    right.record(20);
    left.merge(right);
    assert_eq!(left.operations, 2);
    assert_eq!(left.measurable_latency_ns, [10, 20]);
}

#[test]
fn cache_directories_join_as_paths_do() {
    assert_eq!(cache_dir("a"), "/var/cache/slatedb/a");
    for name in ["a", "", "/etc", "a/b", "../a"] {
        let expected = Path::new(CACHE_ROOT).join(name);
        assert_eq!(Some(cache_dir(name).as_str()), expected.to_str());
    }
}

#[test]
fn invalid_names_are_bad_requests() {
    let error = validate_database_name("a b").unwrap_err();
    assert_eq!((error.status, error.message.as_str()), (400, "invalid database name"));
    assert!(validate_database_name(&"x".repeat(128)).is_ok());
    assert!(validate_database_name(&"x".repeat(129)).is_err());
}

fn variables() -> Variables {
    Variables {
        account_id: Some("account".to_owned()),
        bucket: Some("bucket".to_owned()),
        access_key_id: Some("id".to_owned()),
        secret_access_key: Some("key".to_owned()),
    }
}

#[test]
fn configuration_needs_every_variable() {
    let config = Config::from_env(variables()).unwrap();
    assert_eq!(config.endpoint, "https://account.r2.cloudflarestorage.com");
    assert_eq!(config.bucket, "bucket");
    assert_eq!(config.access_key_id, "id");
    assert_eq!(config.secret_access_key, "key");
    for (variables, missing) in [
        (Variables { account_id: None, bucket: None, ..variables() }, "R2_ACCOUNT_ID"),
        (Variables { bucket: None, ..variables() }, "R2_BUCKET"),
        (Variables { access_key_id: None, ..variables() }, "R2_ACCESS_KEY_ID"),
        (Variables { secret_access_key: None, ..variables() }, "R2_SECRET_ACCESS_KEY"),
    ] {
        assert_eq!(
            Config::from_env(variables).unwrap_err(),
            format!("missing environment variable {missing}")
        );
    }
    assert_eq!(required_env("X", Some("y".to_owned())).unwrap(), "y");
}

#[test]
fn databases_are_opened_with_their_settings() {
    let settings = database_settings("tenant");
    assert_eq!(settings.prefix, "tenant");
    assert_eq!(settings.root, "slatedb");
    assert_eq!(settings.cache_dir, "/var/cache/slatedb/tenant");
    assert_eq!(settings.cache_bytes, 512 * 1024 * 1024);
    assert_eq!(settings.memory_cache_bytes, 128 * 1024 * 1024);
    assert_eq!(settings.memory_cache_shards, 8);
    assert_eq!(settings.l0_sst_bytes, 64 * 1024 * 1024);
    assert_eq!(settings.max_unflushed_bytes, 256 * 1024 * 1024);
}

#[test]
fn containers_hold_one_database() {
    let mut container = Container::new();
    assert_eq!(container.database("a").unwrap(), Opening::Open);
    let error = container.database("a/b").unwrap_err();
    assert_eq!((error.status, error.message.as_str()), (400, "invalid database name"));
    container.session.opened("a");
    assert_eq!(container.database("a").unwrap(), Opening::Current);
    let error = container.database("b").unwrap_err();
    assert_eq!(
        (error.status, error.message.as_str()),
        (500, "container was routed with two database names")
    );
    let status = container.status(3);
    assert_eq!(status.runtime, "container");
    assert!(status.open && status.cache_populated);
    assert_eq!(status.cache_storage_bytes, 3);
    assert_eq!(container.make_way("b c").unwrap_err().status, 400);
    assert!(container.session.is_open());
    assert!(container.make_way("b").unwrap());
    assert!(!container.make_way("b").unwrap());
    let status = container.status(0);
    assert!(!status.open && !status.cache_populated);
}

#[test]
fn missing_caches_are_cleared() {
    assert!(cache_removed(Removal::Removed).is_ok());
    assert!(cache_removed(Removal::Missing).is_ok());
    let error = cache_removed(Removal::Failed("denied".to_owned())).unwrap_err();
    assert_eq!((error.status, error.message.as_str()), (500, "denied"));
}

#[test]
fn directories_add_up() {
    let tree = Tree::Directory(vec![
        Tree::File(3),
        Tree::Directory(vec![Tree::File(4), Tree::Missing, Tree::Directory(vec![])]),
        Tree::File(5),
    ]);
    assert_eq!(directory_size(&tree).unwrap(), 12);
    assert_eq!(directory_size(&Tree::Missing).unwrap(), 0);
    assert_eq!(directory_size(&Tree::File(5)).unwrap_err(), "not a directory");
    assert_eq!(directory_size(&Tree::Failed("denied".to_owned())).unwrap_err(), "denied");
    let broken = Tree::Directory(vec![
        Tree::File(3),
        Tree::Directory(vec![Tree::Failed("first".to_owned())]),
        Tree::Failed("second".to_owned()),
    ]);
    assert_eq!(directory_size(&broken).unwrap_err(), "first");
}

fn batch(clients: usize, operations: usize) -> BenchmarkBatchRequest {
    let clients = (0..clients)
        .map(|_| {
            (0..operations)
                .map(|number| BenchmarkOperation {
                    operation: BenchmarkOperationKind::Put,
                    key: number.to_string(),
                })
                .collect()
        })
        .collect();
    BenchmarkBatchRequest { value: "v".to_owned(), clients }
}

#[test]
fn batches_have_bounded_clients_and_operations() {
    for (clients, operations) in [(1, 1), (256, 1), (1, 512)] {
        assert!(validate_batch(&batch(clients, operations)).is_ok());
    }
    for (clients, operations) in [(0, 1), (257, 1), (1, 0), (1, 513)] {
        let error = validate_batch(&batch(clients, operations)).unwrap_err();
        assert_eq!(error.status, 400);
        assert_eq!(
            error.message,
            "benchmark batch must contain 1 to 256 clients with 1 to 512 operations each"
        );
    }
}

#[test]
fn clients_are_measured_and_merged() {
    let mut first = BenchmarkBatchResponse::default();
    first.observe(BenchmarkOperationKind::Get, true, 1).unwrap();
    first.observe(BenchmarkOperationKind::Put, false, 2).unwrap();
    let mut second = BenchmarkBatchResponse::default();
    second.observe(BenchmarkOperationKind::Get, true, u128::MAX).unwrap();
    let error = second.observe(BenchmarkOperationKind::Get, false, 4).unwrap_err();
    assert_eq!((error.status, error.message.as_str()), (500, "benchmark key not found"));
    let result = merge_clients(vec![first, second]);
    assert_eq!(result.get.operations, 2);
    assert_eq!(result.get.unmeasurable_operations, 0);
    assert_eq!(result.get.measurable_latency_ns, [1, u64::MAX]);
    assert_eq!(result.put.measurable_latency_ns, [2]);
    assert_eq!(merge_clients(Vec::new()).get.operations, 0);
}

#[test]
fn runs_have_one_sample_per_operation() {
    let run = [
        (BenchmarkOperationKind::Get, 5),
        (BenchmarkOperationKind::Put, 6),
        (BenchmarkOperationKind::Get, 4),
        (BenchmarkOperationKind::Get, 9),
    ];
    let mut result = BenchmarkBatchResponse::default();
    for (kind, latency_ns) in run {
        result.observe(kind, true, latency_ns).unwrap();
    }
    assert_eq!(result.get.measurable_latency_ns, [5, 4, 9]);
    assert_eq!(result.put.measurable_latency_ns, [6]);
    assert_eq!((result.get.operations, result.put.operations), (3, 1));
    assert_eq!(result.get.unmeasurable_operations, 0);
    assert_eq!(result.put.unmeasurable_operations, 0);
}
