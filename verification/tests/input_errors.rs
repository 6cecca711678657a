use jankenstore::add::create;
use jankenstore::delete::delete_children_of;
use jankenstore::error::StoreError;
use jankenstore::peer::link;
use jankenstore::read::{all, by_pk, children_of, peers_of, search_condition, SearchConfig};
use jankenstore::resolve::fetch_schema_family;
use jankenstore::update::update_by_pk;
use jankenstore::value::{v_int, v_txt};
use jankenstore::basics::{del, FetchConfig};
use rusqlite::Connection;

fn initialize_db(conn: &Connection) {
    conn.execute_batch(
        "CREATE TABLE song (
            id INTEGER PRIMARY KEY,
            name TEXT NOT NULL,
            artist_id INTEGER,
            memo TEXT DEFAULT ''
        );
        CREATE TABLE artist (
            id INTEGER PRIMARY KEY,
            name TEXT
        );
        CREATE TABLE album (
            id INTEGER PRIMARY KEY,
            name TEXT
        );
        CREATE TABLE rel_album_song (
            album_id INTEGER NOT NULL,
            song_id INTEGER NOT NULL
        );
        INSERT INTO artist (id, name) VALUES (1, 'Alice');
        INSERT INTO song (id, name, artist_id) VALUES (1, 'First', 1);",
    )
    .unwrap();
}

#[test]
fn test_wrong_table() {
    let conn = Connection::open_in_memory().unwrap();
    initialize_db(&conn);
    let schema_family = fetch_schema_family(&conn, &[], "", "").unwrap();

    let r = all(&conn, &schema_family, "nosuch", None, true);
    match r {
        Err(StoreError::TableNotFound { table }) => assert_eq!(table, "nosuch"),
        other => panic!("expected a table-not-found error, got {:?}", other),
    }
}

#[test]
fn test_wrong_field() {
    let conn = Connection::open_in_memory().unwrap();
    initialize_db(&conn);
    let schema_family = fetch_schema_family(&conn, &[], "", "").unwrap();

    let cols = ["nosuchcol"];
    let cfg = FetchConfig {
        is_distinct: false,
        display_cols: Some(&cols),
        where_config: None,
        order_by: None,
        limit: None,
        offset: None,
        group_by: None,
    };
    let r = all(&conn, &schema_family, "song", Some(cfg), true);
    match r {
        Err(StoreError::UnknownColumn { table, column }) => {
            assert_eq!(table, "song");
            assert_eq!(column, "nosuchcol");
        },
        other => panic!("expected an unknown-column error, got {:?}", other),
    }
}

#[test]
fn test_unknown_fields() {
    let conn = Connection::open_in_memory().unwrap();
    initialize_db(&conn);
    let schema_family = fetch_schema_family(&conn, &[], "", "").unwrap();

    let input = vec![
        ("id".to_string(), v_int(9)),
        ("name".to_string(), v_txt("x")),
        ("artist_id".to_string(), v_int(1)),
        ("ghostwriter".to_string(), v_txt("boo")),
    ];
    let r = create(&conn, &schema_family, "song", &input, false);
    assert!(matches!(r, Err(StoreError::UnknownColumn { .. })));
}

#[test]
fn test_wrong_type_fields() {
    let conn = Connection::open_in_memory().unwrap();
    initialize_db(&conn);
    let schema_family = fetch_schema_family(&conn, &[], "", "").unwrap();

    let input = vec![
        ("id".to_string(), v_int(9)),
        ("name".to_string(), v_int(123)),
        ("artist_id".to_string(), v_int(1)),
    ];
    let r = create(&conn, &schema_family, "song", &input, false);
    match r {
        Err(StoreError::TypeMismatch { column, .. }) => assert_eq!(column, "name"),
        other => panic!("expected a type-mismatch error, got {:?}", other),
    }
}

#[test]
fn test_missing_empty_fields() {
    let conn = Connection::open_in_memory().unwrap();
    initialize_db(&conn);
    let schema_family = fetch_schema_family(&conn, &[], "", "").unwrap();

    // an empty value for a required column is as bad as a missing one
    let input = vec![
        ("id".to_string(), v_int(9)),
        ("name".to_string(), v_txt("  ")),
        ("artist_id".to_string(), v_int(1)),
    ];
    let r = create(&conn, &schema_family, "song", &input, false);
    assert!(matches!(r, Err(StoreError::RequiredFieldMissing { .. })));
}

#[test]
fn test_update_wrong_pk_type() {
    let conn = Connection::open_in_memory().unwrap();
    initialize_db(&conn);
    let schema_family = fetch_schema_family(&conn, &[], "", "").unwrap();

    let input = vec![("memo".to_string(), v_txt("x"))];
    let r = update_by_pk(&conn, &schema_family, "song", &input, &[v_txt("one")], None, false);
    assert!(matches!(r, Err(StoreError::TypeMismatch { .. })));
}

#[test]
fn test_wrong_parenthood() {
    let conn = Connection::open_in_memory().unwrap();
    initialize_db(&conn);
    let schema_family = fetch_schema_family(&conn, &[], "", "").unwrap();

    // album is not a parent of song: they are peers
    let parent_info = vec![("album".to_string(), vec![v_int(1)])];
    let r = children_of(&conn, &schema_family, "song", &parent_info, None, true);
    match r {
        Err(StoreError::NotChildOf { child, parent }) => {
            assert_eq!(child, "song");
            assert_eq!(parent, "album");
        },
        other => panic!("expected a not-child-of error, got {:?}", other),
    }
}

#[test]
fn test_wrong_peer() {
    let conn = Connection::open_in_memory().unwrap();
    initialize_db(&conn);
    let schema_family = fetch_schema_family(&conn, &[], "", "").unwrap();

    // artist takes part in no peer relationship
    let peer_config = vec![("song".to_string(), vec![v_int(1)])];
    let r = peers_of(&conn, &schema_family, "artist", &peer_config, None, true);
    assert!(matches!(r, Err(StoreError::NoPeerLinkTable { .. })));
}

#[test]
fn test_link_of_wrong_peers() {
    let conn = Connection::open_in_memory().unwrap();
    initialize_db(&conn);
    let schema_family = fetch_schema_family(&conn, &[], "", "").unwrap();

    let inputs = vec![
        ("song".to_string(), vec![v_int(1)]),
        ("artist".to_string(), vec![v_int(1)]),
    ];
    let r = link(&conn, &schema_family, &inputs);
    assert!(matches!(r, Err(StoreError::NotPeerOf { .. })));
}

#[test]
fn test_wrong_numbers_of_peers() {
    let conn = Connection::open_in_memory().unwrap();
    initialize_db(&conn);
    let schema_family = fetch_schema_family(&conn, &[], "", "").unwrap();

    let inputs = vec![("song".to_string(), vec![v_int(1)])];
    let r = link(&conn, &schema_family, &inputs);
    match r {
        Err(StoreError::PeerGroupCount { found }) => assert_eq!(found, 1),
        other => panic!("expected a group-count error, got {:?}", other),
    }
}

#[test]
fn test_empty_where_clause_refused() {
    let conn = Connection::open_in_memory().unwrap();
    initialize_db(&conn);

    let r = del(&conn, "song", ("  ", &[]));
    assert!(matches!(r, Err(StoreError::EmptyWhereClause)));
}

#[test]
fn test_wrong_search_keyword() {
    let conn = Connection::open_in_memory().unwrap();
    initialize_db(&conn);
    let schema_family = fetch_schema_family(&conn, &[], "", "").unwrap();

    // id is not a text column, so searching over it is refused
    let config = SearchConfig {
        table: "song".to_string(),
        col: "id".to_string(),
        keyword: "1".to_string(),
        exact: None,
    };
    let r = search_condition(&schema_family, &config);
    assert!(matches!(r, Err(StoreError::NotTextColumn { .. })));
}

#[test]
fn test_read_by_pk_wrong_type() {
    let conn = Connection::open_in_memory().unwrap();
    initialize_db(&conn);
    let schema_family = fetch_schema_family(&conn, &[], "", "").unwrap();

    let r = by_pk(&conn, &schema_family, "song", &[v_txt("one")], None, true);
    assert!(matches!(r, Err(StoreError::TypeMismatch { .. })));
}

#[test]
fn test_delete_wrong_parenthood() {
    let conn = Connection::open_in_memory().unwrap();
    initialize_db(&conn);
    let schema_family = fetch_schema_family(&conn, &[], "", "").unwrap();

    let parent_info = vec![("album".to_string(), vec![v_int(1)])];
    let r = delete_children_of(&conn, &schema_family, "song", &parent_info, None);
    assert!(matches!(r, Err(StoreError::NotChildOf { .. })));
}

#[test]
fn test_empty_table_name() {
    assert!(matches!(
        jankenstore::verify::verify_table_name(""),
        Err(StoreError::EmptyTableName)
    ));
}
