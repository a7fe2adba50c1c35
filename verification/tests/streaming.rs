//! Tests of the streaming gateway: the one-changefeed-per-key registry,
//! the subscribe and run plans, and the end-to-end request paths.

use grafana_materialize_datasource::cache::QueryCache;
use grafana_materialize_datasource::convert::{CellValue, Column, ColumnType, FrameValue, RowBatch};
use grafana_materialize_datasource::data::{channel_id, query_data_single, QueryError};
use grafana_materialize_datasource::error::Error;
use grafana_materialize_datasource::queries::{Query, TailTarget};
use grafana_materialize_datasource::request;
use grafana_materialize_datasource::resource::JsonError;
use grafana_materialize_datasource::stream::{run_stream_plan, subscribe_plan, StreamRegistry};

/// A pretend upstream: counts how many changefeed connections are opened.
struct CountingUpstream {
    connections_opened: usize,
}

impl CountingUpstream {
    fn open_changefeed(&mut self, _sql: &str) {
        self.connections_opened += 1;
    }
}

#[test]
fn at_most_one_changefeed_per_key() {
    let mut registry = StreamRegistry::new();
    let mut upstream = CountingUpstream {
        connections_opened: 0,
    };
    let queries = QueryCache::new();
    let key = "ds/1/tail/relation/orders";

    // Two concurrent subscribers both fetch their own snapshot...
    let (_, snapshot_a) = subscribe_plan("tail/relation/orders", &queries).unwrap();
    let (_, snapshot_b) = subscribe_plan("tail/relation/orders", &queries).unwrap();
    assert_eq!(snapshot_a, "SELECT * FROM orders");
    assert_eq!(snapshot_b, "SELECT * FROM orders");

    // ...but only the first run call opens the upstream changefeed.
    match run_stream_plan("tail/relation/orders", key, &queries, &mut registry) {
        Ok((_, tail_sql)) => upstream.open_changefeed(&tail_sql),
        Err(e) => panic!("first run was refused: {:?}", e),
    }
    match run_stream_plan("tail/relation/orders", key, &queries, &mut registry) {
        Ok((_, tail_sql)) => upstream.open_changefeed(&tail_sql),
        Err(e) => assert_eq!(e, Error::StreamAlreadyRunning),
    }
    assert_eq!(upstream.connections_opened, 1);
    assert!(registry.is_open(key));

    // After the feed closes, the key starts over from scratch.
    registry.release(key);
    assert!(!registry.is_open(key));
    match run_stream_plan("tail/relation/orders", key, &queries, &mut registry) {
        Ok((_, tail_sql)) => upstream.open_changefeed(&tail_sql),
        Err(e) => panic!("run after release was refused: {:?}", e),
    }
    assert_eq!(upstream.connections_opened, 2);
}

#[test]
fn registry_claims_are_per_key() {
    let mut registry = StreamRegistry::new();
    assert!(registry.claim("a"));
    assert!(registry.claim("b"));
    assert!(!registry.claim("a"));
    assert!(!registry.claim("b"));
    registry.release("a");
    assert!(registry.claim("a"));
    assert!(!registry.claim("a"));
}

#[test]
fn run_plan_builds_snapshotless_tail() {
    let queries = QueryCache::new();
    let mut registry = StreamRegistry::new();
    let (q, sql) =
        run_stream_plan("tail/relation/orders", "k", &queries, &mut registry).unwrap();
    assert_eq!(
        q,
        Query::Tail(TailTarget::Relation {
            name: "orders".parse().unwrap()
        })
    );
    assert_eq!(sql, "TAIL orders WITH (SNAPSHOT = false)");
    let target = q.as_tail().unwrap();
    assert_eq!(target.select_all_sql(), "SELECT * FROM orders");
}

#[test]
fn subscribe_does_not_open_changefeeds() {
    let queries = QueryCache::new();
    let registry = StreamRegistry::new();
    subscribe_plan("tail/relation/orders", &queries).unwrap();
    subscribe_plan("tail/relation/orders", &queries).unwrap();
    // The registry was never handed to subscribe, and no key is open.
    assert!(!registry.is_open("ds/1/tail/relation/orders"));
}

#[test]
fn subscribe_and_run_report_decode_failures() {
    let queries = QueryCache::new();
    let mut registry = StreamRegistry::new();
    assert_eq!(
        subscribe_plan("tail/select/feedfacefeedfacefeedfacefeedface", &queries),
        Err(Error::UnknownFingerprint(
            "feedfacefeedfacefeedfacefeedface".to_string()
        ))
    );
    assert_eq!(
        run_stream_plan("bogus", "k", &queries, &mut registry),
        Err(Error::UnknownPath("bogus".to_string()))
    );
    // A failed decode claims nothing.
    assert!(!registry.is_open("k"));
}

#[test]
fn relation_request_end_to_end() {
    let mut queries = QueryCache::new();
    let q = Query::Tail(TailTarget::Relation {
        name: "orders".parse().unwrap(),
    });
    let batch = RowBatch {
        columns: vec![Column {
            name: "total".to_string(),
            ctype: ColumnType::Int8,
        }],
        rows: vec![vec![CellValue::Int8(9)]],
    };
    let frame = query_data_single(&q, "uid-1", &batch, &mut queries).unwrap();
    assert_eq!(
        frame.channel.as_deref(),
        Some("ds/uid-1/tail/relation/orders")
    );
    assert_eq!(frame.name, "tail");
    assert_eq!(frame.fields.len(), 3);
    assert_eq!(frame.fields[2].values[0], Some(FrameValue::Int8(9)));

    // A later run against the advertised channel path wins the claim and
    // gets the changefeed statement for exactly that relation.
    let mut registry = StreamRegistry::new();
    let (decoded, tail_sql) = run_stream_plan(
        "tail/relation/orders",
        "ds/uid-1/tail/relation/orders",
        &queries,
        &mut registry,
    )
    .unwrap();
    assert_eq!(decoded, q);
    assert_eq!(tail_sql, "TAIL orders WITH (SNAPSHOT = false)");
}

#[test]
fn select_request_end_to_end() {
    let mut queries = QueryCache::new();
    let q = Query::Tail(TailTarget::Select {
        statement: "SELECT 1".parse().unwrap(),
    });
    let batch = RowBatch {
        columns: vec![Column {
            name: "?column?".to_string(),
            ctype: ColumnType::Int4,
        }],
        rows: vec![vec![CellValue::Int4(1)]],
    };
    let frame = query_data_single(&q, "uid-1", &batch, &mut queries).unwrap();
    assert_eq!(
        frame.channel.as_deref(),
        Some("ds/uid-1/tail/select/b1698e52a0f16203489454196a0c6307")
    );
    // Decoding that exact channel path against the now-populated cache
    // returns the original query text.
    let decoded = Query::try_from_path(
        "tail/select/b1698e52a0f16203489454196a0c6307",
        &queries,
    )
    .unwrap();
    assert_eq!(decoded, q);
}

#[test]
fn conversion_failure_leaves_cache_unpopulated() {
    let mut queries = QueryCache::new();
    let q = Query::Tail(TailTarget::Select {
        statement: "SELECT 1".parse().unwrap(),
    });
    let batch = RowBatch {
        columns: vec![Column {
            name: "b".to_string(),
            ctype: ColumnType::Int4,
        }],
        rows: vec![vec![CellValue::Null]],
    };
    assert!(matches!(
        query_data_single(&q, "uid-1", &batch, &mut queries),
        Err(Error::Data(_))
    ));
    assert_eq!(
        Query::try_from_path("tail/select/b1698e52a0f16203489454196a0c6307", &queries),
        Err(Error::UnknownFingerprint(
            "b1698e52a0f16203489454196a0c6307".to_string()
        ))
    );
}

#[test]
fn channel_id_forms() {
    let q = Query::Tail(TailTarget::Relation {
        name: "t".parse().unwrap(),
    });
    assert_eq!(channel_id("abc", &q), "ds/abc/tail/relation/t");
}

#[test]
fn query_error_is_tagged_with_its_request() {
    let e = QueryError::new("A1".to_string(), Error::MissingDatasource);
    assert_eq!(e.source(), &Error::MissingDatasource);
    assert_eq!(e.ref_id(), "A1");
}

#[test]
fn json_error_carries_its_message() {
    let e = JsonError::new("Path not found".to_string());
    assert_eq!(e.message(), "Path not found");
}

#[test]
fn request_shapes_convert_to_queries() {
    let p = request::Path::Tail(request::TailTarget::Relation {
        name: request::SourceName("some_table".parse().unwrap()),
    });
    let q: Query = p.into();
    assert_eq!(
        q,
        Query::Tail(TailTarget::Relation {
            name: "some_table".parse().unwrap()
        })
    );
    let t = request::TailTarget::Select {
        statement: request::SelectStatement("SELECT 1".parse().unwrap()),
    };
    let t2: TailTarget = t.into();
    assert_eq!(
        t2,
        TailTarget::Select {
            statement: "SELECT 1".parse().unwrap()
        }
    );
}
