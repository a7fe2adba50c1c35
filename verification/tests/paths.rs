//! Tests of the path codec: encoding targets, fingerprints, and decoding
//! channel paths against the query cache.

use grafana_materialize_datasource::cache::QueryCache;
use grafana_materialize_datasource::error::Error;
use grafana_materialize_datasource::path::{PathDisplay, QueryId};
use grafana_materialize_datasource::queries::{Query, SelectStatement, SourceName, TailTarget};

#[test]
fn path_display() {
    assert_eq!(
        Query::Tail(TailTarget::Relation {
            name: "some_table".parse().unwrap()
        })
        .to_path(),
        "tail/relation/some_table"
    );
    assert_eq!(
        Query::Tail(TailTarget::Select {
            statement: "SELECT * FROM my_table".parse().unwrap()
        })
        .to_path(),
        "tail/select/9ebfce3b05a248842876e8ed1706a451"
    );
}

#[test]
fn query_from_str() {
    let mut queries = QueryCache::new();
    queries.insert(
        QueryId::new("9ebfce3b05a248842876e8ed1706a451".to_string()),
        "SELECT * FROM my_table".parse().unwrap(),
    );
    assert_eq!(
        Query::try_from_path("tail/relation/some_table", &queries).unwrap(),
        Query::Tail(TailTarget::Relation {
            name: "some_table".parse().unwrap()
        })
    );
    assert_eq!(
        Query::try_from_path("tail/select/9ebfce3b05a248842876e8ed1706a451", &queries).unwrap(),
        Query::Tail(TailTarget::Select {
            statement: "SELECT * FROM my_table".parse().unwrap()
        })
    );
}

#[test]
fn relation_round_trip_for_valid_names() {
    for name in ["orders", "a.b.c", "t_1", "T2", "", "x9._"] {
        let queries = QueryCache::new();
        let q = Query::Tail(TailTarget::Relation {
            name: name.parse().unwrap(),
        });
        let path = q.to_path();
        assert_eq!(Query::try_from_path(&path, &queries).unwrap(), q);
    }
}

#[test]
fn select_round_trip_after_cache_population() {
    let texts = [
        "SELECT 1",
        "SELECT * FROM t WHERE a = 'x/y'",
        "SELECT a, b FROM c JOIN d ON c.i = d.i",
        "",
    ];
    for text in texts {
        let mut queries = QueryCache::new();
        let statement: SelectStatement = text.parse().unwrap();
        queries.insert(
            QueryId::from_statement(&statement),
            statement.clone(),
        );
        let q = Query::Tail(TailTarget::Select { statement });
        let path = q.to_path();
        let decoded = Query::try_from_path(&path, &queries).unwrap();
        match decoded {
            Query::Tail(TailTarget::Select { statement }) => {
                assert_eq!(statement.as_str(), text);
            }
            other => panic!("decoded to a relation: {:?}", other),
        }
    }
}

#[test]
fn fingerprint_is_deterministic() {
    let a = QueryId::from_statement(&"SELECT * FROM my_table".parse().unwrap());
    let b = QueryId::from_statement(&"SELECT * FROM my_table".parse().unwrap());
    assert_eq!(a, b);
    assert_eq!(a.as_str(), "9ebfce3b05a248842876e8ed1706a451");
    assert_eq!(
        QueryId::from_statement(&"SELECT 1".parse().unwrap()).into_inner(),
        "b1698e52a0f16203489454196a0c6307"
    );
}

#[test]
fn unknown_fingerprint_fails_with_typed_error() {
    let queries = QueryCache::new();
    let r = Query::try_from_path("tail/select/b1698e52a0f16203489454196a0c6307", &queries);
    assert_eq!(
        r,
        Err(Error::UnknownFingerprint(
            "b1698e52a0f16203489454196a0c6307".to_string()
        ))
    );
}

#[test]
fn invalid_relation_name_is_rejected() {
    assert!(SourceName::new("little bobby tables").is_err());
    assert!(SourceName::new("a;b").is_err());
    assert!(SourceName::new("a/b").is_err());
    assert!(SourceName::new("a.b_c9").is_ok());
    let queries = QueryCache::new();
    assert_eq!(
        Query::try_from_path("tail/relation/little bobby tables", &queries),
        Err(Error::InvalidTailTarget("little bobby tables".to_string()))
    );
}

#[test]
fn malformed_paths_fail_with_typed_errors() {
    let queries = QueryCache::new();
    assert_eq!(
        Query::try_from_path("nope/relation/x", &queries),
        Err(Error::UnknownPath("nope/relation/x".to_string()))
    );
    assert_eq!(
        Query::try_from_path("bare", &queries),
        Err(Error::UnknownPath("bare".to_string()))
    );
    assert_eq!(
        Query::try_from_path("tail", &queries),
        Err(Error::MissingTailTarget)
    );
    assert_eq!(
        Query::try_from_path("tail/relation", &queries),
        Err(Error::MissingTailTarget)
    );
    assert_eq!(
        Query::try_from_path("tail/unknown/payload", &queries),
        Err(Error::MissingTailTarget)
    );
}

#[test]
fn cache_overwrites_and_misses() {
    let mut queries = QueryCache::new();
    let id = QueryId::new("k".to_string());
    assert!(queries.lookup(&id).is_none());
    queries.insert(QueryId::new("k".to_string()), "SELECT 1".parse().unwrap());
    assert_eq!(queries.lookup(&id).unwrap().as_str(), "SELECT 1");
    queries.insert(QueryId::new("k".to_string()), "SELECT 2".parse().unwrap());
    assert_eq!(queries.lookup(&id).unwrap().as_str(), "SELECT 2");
    assert!(queries.lookup(&QueryId::new("other".to_string())).is_none());
}

#[test]
fn generated_sql_forms() {
    let relation = TailTarget::Relation {
        name: "orders".parse().unwrap(),
    };
    assert_eq!(relation.tail_sql(), "TAIL orders WITH (SNAPSHOT = false)");
    assert_eq!(relation.select_all_sql(), "SELECT * FROM orders");
    let select = TailTarget::Select {
        statement: "SELECT 1".parse().unwrap(),
    };
    assert_eq!(select.tail_sql(), "TAIL (SELECT 1) WITH (SNAPSHOT = false)");
    assert_eq!(select.select_all_sql(), "SELECT 1");
}

#[test]
fn query_id_accessors() {
    let id = QueryId::new("abc123".to_string());
    assert_eq!(id.as_str(), "abc123");
    assert_eq!(id.into_inner(), "abc123");
    let name: SourceName = "orders".parse().unwrap();
    assert_eq!(name.as_str(), "orders");
    let statement: SelectStatement = "SELECT 1".parse().unwrap();
    assert_eq!(statement.as_str(), "SELECT 1");
}
