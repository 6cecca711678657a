use jankenstore::error::StoreError;
use jankenstore::family::SchemaFamily;
use jankenstore::resolve::fetch_schema_family;
use rusqlite::Connection;

fn initialize_db(conn: &Connection) {
    conn.execute_batch(
        "CREATE TABLE song (
            id INTEGER PRIMARY KEY,
            name TEXT NOT NULL,
            artist_id INTEGER,
            file BLOB,
            memo TEXT DEFAULT ''
        );
        CREATE TABLE artist (
            id INTEGER PRIMARY KEY,
            name TEXT
        );
        CREATE TABLE album (
            id INTEGER PRIMARY KEY,
            name TEXT,
            memo TEXT DEFAULT ''
        );
        CREATE TABLE rel_album_song (
            album_id INTEGER NOT NULL,
            song_id INTEGER NOT NULL,
            PRIMARY KEY (album_id, song_id)
        );",
    )
    .unwrap();
}

fn group<'a>(m: &'a [(String, Vec<String>)], k: &str) -> Option<&'a Vec<String>> {
    m.iter().find(|(name, _)| name == k).map(|(_, g)| g)
}

fn link_of<'a>(m: &'a [(String, String)], k: &str) -> Option<&'a str> {
    m.iter().find(|(name, _)| name == k).map(|(_, j)| j.as_str())
}

#[test]
fn test_fetch_schema() {
    let conn = Connection::open_in_memory().unwrap();
    initialize_db(&conn);
    conn.execute(
        "CREATE TABLE log (
            id INTEGER PRIMARY KEY,
            content TEXT NOT NULL,
            attachment BLOB
        )",
        [],
    )
    .unwrap();

    let schema_family = fetch_schema_family(&conn, &[], "", "").unwrap();
    assert_eq!(schema_family.map.len(), 5);

    // the example of the naming conventions at work: song has artist as
    // parent, song and album are peers through rel_album_song
    assert_eq!(group(&schema_family.peers, "song").unwrap(), &["album"]);
    assert_eq!(group(&schema_family.peers, "album").unwrap(), &["song"]);
    assert_eq!(group(&schema_family.parents, "song").unwrap(), &["artist"]);
    assert_eq!(group(&schema_family.children, "artist").unwrap(), &["song"]);
    assert_eq!(
        link_of(&schema_family.peer_link_tables, "song").unwrap(),
        "rel_album_song"
    );
    assert_eq!(
        link_of(&schema_family.peer_link_tables, "album").unwrap(),
        "rel_album_song"
    );
}

#[test]
fn test_fetch_schema_with_wrong_column_type() {
    let conn = Connection::open_in_memory().unwrap();
    initialize_db(&conn);
    conn.execute(
        "CREATE TABLE log (
            id INTEGER PRIMARY KEY,
            content TEXT NOT NULL,
            created_at TIMESTAMP DEFAULT CURRENT_TIMESTAMP
        )",
        [],
    )
    .unwrap();

    let schema_family = SchemaFamily::fetch(&conn, &[], "", "");
    assert!(matches!(
        schema_family,
        Err(StoreError::InvalidColumnType { .. })
    ));
}

#[test]
fn test_fetch_schema_with_invalid_peer_table() {
    let conn = Connection::open_in_memory().unwrap();
    initialize_db(&conn);
    conn.execute(
        "CREATE TABLE rel_writer_audience_company (id INTEGER PRIMARY KEY, name TEXT NOT NULL, artist_id INTEGER, memo TEXT DEFAULT '')",
        [],
    )
    .unwrap();

    let schema_family = fetch_schema_family(&conn, &[], "", "");
    // three segments after the split: the junction name is malformed
    match schema_family {
        Err(StoreError::BadPeerTableName { table }) => {
            assert_eq!(table, "rel_writer_audience_company");
        },
        other => panic!("expected a malformed junction name error, got {:?}", other.map(|_| ())),
    }
}

#[test]
fn test_fetch_schema_with_peer_tables_missing_link_columns() {
    let conn = Connection::open_in_memory().unwrap();
    initialize_db(&conn);
    conn.execute(
        "CREATE TABLE rel_artist_album(id INTEGER PRIMARY KEY, writer_id TEXT NOT NULL, artist_id INTEGER, memo TEXT DEFAULT '')",
        [],
    )
    .unwrap();

    let schema_family = fetch_schema_family(&conn, &[], "", "");
    match schema_family {
        Err(StoreError::MissingFkColumn { junction, column }) => {
            assert_eq!(junction, "rel_artist_album");
            assert_eq!(column, "album_id");
        },
        other => panic!("expected a missing fk-column error, got {:?}", other.map(|_| ())),
    }
}

#[test]
fn test_fetch_schema_with_unknown_peer_tables() {
    let conn = Connection::open_in_memory().unwrap();
    initialize_db(&conn);
    conn.execute(
        "CREATE TABLE rel_artist_audience(id INTEGER PRIMARY KEY, artist_id TEXT NOT NULL, audience_id INTEGER)",
        [],
    )
    .unwrap();

    let schema_family = fetch_schema_family(&conn, &[], "", "");
    match schema_family {
        Err(StoreError::MissingPeerTable { table, junction }) => {
            assert_eq!(table, "audience");
            assert_eq!(junction, "rel_artist_audience");
        },
        other => panic!("expected a missing peer-table error, got {:?}", other.map(|_| ())),
    }
}

#[test]
fn test_fetch_schema_with_multiple_peers() {
    let conn = Connection::open_in_memory().unwrap();
    initialize_db(&conn);
    conn.execute(
        "CREATE TABLE rel_artist_album(id INTEGER PRIMARY KEY, artist_id TEXT NOT NULL, album_id INTEGER)",
        [],
    )
    .unwrap();
    conn.execute(
        "CREATE TABLE chatgroup(id INTEGER PRIMARY KEY, name TEXT NOT NULL)",
        [],
    )
    .unwrap();
    conn.execute(
        "CREATE TABLE rel_song_chatgroup(id INTEGER PRIMARY KEY, song_id TEXT NOT NULL, chatgroup_id INTEGER)",
        [],
    )
    .unwrap();

    let schema_family = fetch_schema_family(&conn, &[], "", "").unwrap();
    let peers_of_song = group(&schema_family.peers, "song").unwrap();
    assert_eq!(peers_of_song.len(), 2);
    assert!(peers_of_song.contains(&"album".to_string()));
    assert!(peers_of_song.contains(&"chatgroup".to_string()));

    let peers_of_album = group(&schema_family.peers, "album").unwrap();
    assert_eq!(peers_of_album.len(), 2);
    assert!(peers_of_album.contains(&"song".to_string()));
    assert!(peers_of_album.contains(&"artist".to_string()));
}

#[test]
fn test_fetch_schema_with_multiple_parenthood() {
    let conn = Connection::open_in_memory().unwrap();
    initialize_db(&conn);
    conn.execute(
        "CREATE TABLE log(id INTEGER PRIMARY KEY, artist_id INTEGER NOT NULL, audience_id INTEGER, company_id INTEGER)",
        [],
    )
    .unwrap();
    conn.execute(
        "CREATE TABLE company(id INTEGER PRIMARY KEY, memo TEXT NOT NULL)",
        [],
    )
    .unwrap();
    conn.execute(
        "CREATE TABLE audience(id INTEGER PRIMARY KEY, location TEXT NOT NULL)",
        [],
    )
    .unwrap();

    let schema_family = fetch_schema_family(&conn, &[], "", "").unwrap();
    assert_eq!(schema_family.parents.len(), 2);

    let log_parents = group(&schema_family.parents, "log").unwrap();
    assert_eq!(log_parents.len(), 3);
    for parent in ["artist", "audience", "company"] {
        assert!(log_parents.contains(&parent.to_string()));
    }
    assert_eq!(group(&schema_family.parents, "song").unwrap(), &["artist"]);

    assert_eq!(schema_family.children.len(), 3);
    let artist_children = group(&schema_family.children, "artist").unwrap();
    assert_eq!(artist_children.len(), 2);
    assert!(artist_children.contains(&"song".to_string()));
    assert!(artist_children.contains(&"log".to_string()));
    assert_eq!(group(&schema_family.children, "audience").unwrap(), &["log"]);
    assert_eq!(group(&schema_family.children, "company").unwrap(), &["log"]);
}

#[test]
fn test_fetch_schema_skip_table() {
    let conn = Connection::open_in_memory().unwrap();
    initialize_db(&conn);
    conn.execute(
        "CREATE TABLE log(id INTEGER PRIMARY KEY, artist_id TEXT NOT NULL, audience_id INTEGER, company_id INTEGER)",
        [],
    )
    .unwrap();
    conn.execute(
        "CREATE TABLE company(id INTEGER PRIMARY KEY, memo TEXT NOT NULL)",
        [],
    )
    .unwrap();
    conn.execute(
        "CREATE TABLE audience(id INTEGER PRIMARY KEY, location TEXT NOT NULL)",
        [],
    )
    .unwrap();

    let excludes = ["company", "log", "audience"];
    let schema_family = fetch_schema_family(&conn, &excludes, "", "").unwrap();
    assert_eq!(schema_family.map.len(), 4);
    for table in excludes {
        assert!(!schema_family.map.iter().any(|(name, _)| name == table));
    }
}

#[test]
fn test_custom_prefix_splitter() {
    let conn = Connection::open_in_memory().unwrap();
    initialize_db(&conn);
    conn.execute(
        "CREATE TABLE link__artist__album (id INTEGER PRIMARY KEY, artist_id TEXT NOT NULL, album_id INTEGER)",
        [],
    )
    .unwrap();

    let schema_family = fetch_schema_family(&conn, &[], "link", "__").unwrap();
    assert_eq!(schema_family.map.len(), 5);
    assert_eq!(group(&schema_family.peers, "artist").unwrap(), &["album"]);
    // with the custom prefix, rel_album_song is just an entity table
    assert!(group(&schema_family.peers, "song").is_none());
}

#[test]
fn test_wrong_fk_types() {
    let conn = Connection::open_in_memory().unwrap();
    initialize_db(&conn);
    conn.execute(
        "CREATE TABLE chat_history(serial INTEGER PRIMARY KEY, artist_id Integer NOT NULL, content TEXT NOT NULL)",
        [],
    )
    .unwrap();
    conn.execute(
        "CREATE TABLE chat_video(id INTEGER PRIMARY KEY, chat_history_serial TEXT NOT NULL, video BLOB)",
        [],
    )
    .unwrap();

    let schema_family = fetch_schema_family(&conn, &[], "", "");
    match schema_family {
        Err(StoreError::FkTypeMismatch { child, parent, column, expected, actual }) => {
            assert_eq!(child, "chat_video");
            assert_eq!(parent, "chat_history");
            assert_eq!(column, "chat_history_serial");
            assert_eq!(expected, jankenstore::value::DbType::Integer);
            assert_eq!(actual, jankenstore::value::DbType::Text);
        },
        other => panic!("expected an fk type-mismatch error, got {:?}", other.map(|_| ())),
    }
}

#[test]
fn test_different_pk_names() {
    let conn = Connection::open_in_memory().unwrap();
    initialize_db(&conn);
    conn.execute(
        "CREATE TABLE chathistory(serial INTEGER PRIMARY KEY, artist_id Integer NOT NULL, content TEXT NOT NULL)",
        [],
    )
    .unwrap();
    conn.execute(
        "CREATE TABLE chatvideo(id INTEGER PRIMARY KEY, chathistory_serial INTEGER NOT NULL, video BLOB)",
        [],
    )
    .unwrap();
    conn.execute(
        "CREATE TABLE chatcategory(uuid TEXT PRIMARY KEY, label TEXT NOT NULL)",
        [],
    )
    .unwrap();
    conn.execute(
        "CREATE TABLE rel_chathistory_chatcategory(id INTEGER PRIMARY KEY, chathistory_serial INTEGER NOT NULL, chatcategory_uuid TEXT NOT NULL)",
        [],
    )
    .unwrap();

    let schema_family = fetch_schema_family(&conn, &[], "", "").unwrap();
    let peers = group(&schema_family.peers, "chathistory").unwrap();
    assert!(peers.contains(&"chatcategory".to_string()));
    let parents = group(&schema_family.parents, "chatvideo").unwrap();
    assert!(parents.contains(&"chathistory".to_string()));
}

#[test]
fn test_family_queries() {
    let conn = Connection::open_in_memory().unwrap();
    initialize_db(&conn);
    let family = fetch_schema_family(&conn, &[], "", "").unwrap();

    let schema = family.try_get_schema("song").unwrap();
    assert_eq!(schema.name, "song");
    assert_eq!(schema.pk, "id");
    assert!(matches!(
        family.try_get_schema("nosuch"),
        Err(StoreError::TableNotFound { .. })
    ));

    assert!(family.verify_child_of("song", "artist").is_ok());
    assert!(matches!(
        family.verify_child_of("artist", "song"),
        Err(StoreError::NotChildOf { .. })
    ));

    assert!(family.verify_peer_of("song", "album").is_ok());
    assert!(family.verify_peer_of("album", "song").is_ok());
    assert!(matches!(
        family.verify_peer_of("song", "artist"),
        Err(StoreError::NotPeerOf { .. })
    ));

    assert_eq!(family.try_get_peer_link_table_of("song").unwrap(), "rel_album_song");
    assert!(matches!(
        family.try_get_peer_link_table_of("artist"),
        Err(StoreError::NoPeerLinkTable { .. })
    ));

    assert_eq!(family.get_parents_of("song"), vec!["artist".to_string()]);
    assert!(family.get_parents_of("artist").is_empty());
}

#[test]
fn test_required_follows_fk_convention() {
    let conn = Connection::open_in_memory().unwrap();
    initialize_db(&conn);
    conn.execute(
        "CREATE TABLE chathistory(serial INTEGER PRIMARY KEY, content TEXT NOT NULL)",
        [],
    )
    .unwrap();
    conn.execute(
        "CREATE TABLE chatvideo(id INTEGER PRIMARY KEY, chathistory_serial INTEGER, stray_id INTEGER)",
        [],
    )
    .unwrap();

    let family = fetch_schema_family(&conn, &[], "", "").unwrap();
    let video = &family.map.iter().find(|(k, _)| k == "chatvideo").unwrap().1;
    // the foreign-key convention is <table>_<that table's primary key>:
    // chathistory_serial references chathistory, so it is required even
    // though it is nullable; stray_id references no table and is not
    assert!(video.required_fields.contains(&"chathistory_serial".to_string()));
    assert!(!video.required_fields.contains(&"stray_id".to_string()));
}
