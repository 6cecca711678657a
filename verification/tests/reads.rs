use jankenstore::basics::{CountConfig, FetchConfig};
use jankenstore::read::{all, by_pk, children_of, count, peers_of, search_condition, SearchConfig};
use jankenstore::resolve::fetch_schema_family;
use jankenstore::value::{v_int, v_txt, DbValue};
use rusqlite::Connection;

fn initialize_db(conn: &Connection) {
    conn.execute_batch(
        "CREATE TABLE song (
            id INTEGER PRIMARY KEY,
            name TEXT NOT NULL,
            artist_id INTEGER,
            memo TEXT DEFAULT ''
        );
        CREATE TABLE artist (
            id INTEGER PRIMARY KEY,
            name TEXT
        );
        CREATE TABLE album (
            id INTEGER PRIMARY KEY,
            name TEXT,
            memo TEXT DEFAULT ''
        );
        CREATE TABLE rel_album_song (
            album_id INTEGER NOT NULL,
            song_id INTEGER NOT NULL,
            PRIMARY KEY (album_id, song_id)
        );
        INSERT INTO artist (id, name) VALUES (1, 'Alice');
        INSERT INTO artist (id, name) VALUES (2, 'Bob');
        INSERT INTO song (id, name, artist_id, memo) VALUES (1, 'First', 1, 'big');
        INSERT INTO song (id, name, artist_id, memo) VALUES (2, 'Second', 1, 'little');
        INSERT INTO song (id, name, artist_id, memo) VALUES (3, 'Third', 2, 'big');
        INSERT INTO album (id, name) VALUES (1, 'Hits');
        INSERT INTO rel_album_song (album_id, song_id) VALUES (1, 1);
        INSERT INTO rel_album_song (album_id, song_id) VALUES (1, 3);",
    )
    .unwrap();
}

fn field<'a>(row: &'a [(String, DbValue)], name: &str) -> &'a DbValue {
    &row.iter().find(|(k, _)| k == name).unwrap().1
}

fn no_frills<'a>() -> FetchConfig<'a> {
    FetchConfig {
        is_distinct: false,
        display_cols: None,
        where_config: None,
        order_by: None,
        limit: None,
        offset: None,
        group_by: None,
    }
}

#[test]
fn test_read_all() {
    let conn = Connection::open_in_memory().unwrap();
    initialize_db(&conn);
    let schema_family = fetch_schema_family(&conn, &[], "", "").unwrap();

    let (rows, total) = all(&conn, &schema_family, "song", None, false).unwrap();
    assert_eq!(rows.len(), 3);
    assert_eq!(total, 3);
}

#[test]
fn test_read_by_pagination() {
    let conn = Connection::open_in_memory().unwrap();
    initialize_db(&conn);
    let schema_family = fetch_schema_family(&conn, &[], "", "").unwrap();

    let cfg = FetchConfig { limit: Some(2), offset: Some(0), order_by: Some("id"), ..no_frills() };
    let (rows, total) = all(&conn, &schema_family, "song", Some(cfg), false).unwrap();
    assert_eq!(rows.len(), 2);
    // the total ignores the pagination
    assert_eq!(total, 3);
    assert_eq!(field(&rows[0], "id"), &v_int(1));

    let cfg = FetchConfig { limit: Some(2), offset: Some(2), order_by: Some("id"), ..no_frills() };
    let (rows, _) = all(&conn, &schema_family, "song", Some(cfg), false).unwrap();
    assert_eq!(rows.len(), 1);
    assert_eq!(field(&rows[0], "id"), &v_int(3));
}

#[test]
fn test_order_by() {
    let conn = Connection::open_in_memory().unwrap();
    initialize_db(&conn);
    let schema_family = fetch_schema_family(&conn, &[], "", "").unwrap();

    let cfg = FetchConfig { order_by: Some("id DESC"), ..no_frills() };
    let (rows, _) = all(&conn, &schema_family, "song", Some(cfg), true).unwrap();
    assert_eq!(field(&rows[0], "id"), &v_int(3));
    assert_eq!(field(&rows[2], "id"), &v_int(1));
}

#[test]
fn test_group_by() {
    let conn = Connection::open_in_memory().unwrap();
    initialize_db(&conn);
    let schema_family = fetch_schema_family(&conn, &[], "", "").unwrap();

    let cols = ["memo"];
    let cfg = FetchConfig {
        display_cols: Some(&cols),
        group_by: Some("memo"),
        ..no_frills()
    };
    let (rows, _) = all(&conn, &schema_family, "song", Some(cfg), true).unwrap();
    assert_eq!(rows.len(), 2);
}

#[test]
fn test_read_distinct() {
    let conn = Connection::open_in_memory().unwrap();
    initialize_db(&conn);
    let schema_family = fetch_schema_family(&conn, &[], "", "").unwrap();

    let cols = ["memo"];
    let cfg = FetchConfig { is_distinct: true, display_cols: Some(&cols), ..no_frills() };
    let (rows, total) = all(&conn, &schema_family, "song", Some(cfg), true).unwrap();
    assert_eq!(rows.len(), 2);
    assert_eq!(total, 2);
}

#[test]
fn test_read_by_pk_with_condition() {
    let conn = Connection::open_in_memory().unwrap();
    initialize_db(&conn);
    let schema_family = fetch_schema_family(&conn, &[], "", "").unwrap();

    let params = vec![v_txt("big")];
    let cfg = FetchConfig { where_config: Some(("memo = ?", params.as_slice())), ..no_frills() };
    let (rows, _) =
        by_pk(&conn, &schema_family, "song", &[v_int(1), v_int(2)], Some(cfg), true).unwrap();
    assert_eq!(rows.len(), 1);
    assert_eq!(field(&rows[0], "id"), &v_int(1));
}

#[test]
fn test_count() {
    let conn = Connection::open_in_memory().unwrap();
    initialize_db(&conn);
    let schema_family = fetch_schema_family(&conn, &[], "", "").unwrap();

    let total = count(&conn, &schema_family, "song", None).unwrap();
    assert_eq!(total, 3);

    let cfg = CountConfig { distinct_field: Some("memo"), where_config: None };
    let distinct = count(&conn, &schema_family, "song", Some(cfg)).unwrap();
    assert_eq!(distinct, 2);
}

#[test]
fn test_reading_children() {
    let conn = Connection::open_in_memory().unwrap();
    initialize_db(&conn);
    let schema_family = fetch_schema_family(&conn, &[], "", "").unwrap();

    let parent_info = vec![("artist".to_string(), vec![v_int(1)])];
    let (rows, total) =
        children_of(&conn, &schema_family, "song", &parent_info, None, false).unwrap();
    assert_eq!(rows.len(), 2);
    assert_eq!(total, 2);
}

#[test]
fn test_reading_peers() {
    let conn = Connection::open_in_memory().unwrap();
    initialize_db(&conn);
    let schema_family = fetch_schema_family(&conn, &[], "", "").unwrap();

    let peer_config = vec![("album".to_string(), vec![v_int(1)])];
    let (rows, total) =
        peers_of(&conn, &schema_family, "song", &peer_config, None, false).unwrap();
    assert_eq!(rows.len(), 2);
    assert_eq!(total, 2);
    let ids: Vec<&DbValue> = rows.iter().map(|r| field(r, "id")).collect();
    assert!(ids.contains(&&v_int(1)));
    assert!(ids.contains(&&v_int(3)));
}

#[test]
fn test_search() {
    let conn = Connection::open_in_memory().unwrap();
    initialize_db(&conn);
    let schema_family = fetch_schema_family(&conn, &[], "", "").unwrap();

    let config = SearchConfig {
        table: "song".to_string(),
        col: "name".to_string(),
        keyword: "ir".to_string(),
        exact: None,
    };
    let (clause, params) = search_condition(&schema_family, &config).unwrap();
    assert_eq!(clause, "name like '%'||?||'%'");
    let cfg = FetchConfig { where_config: Some((clause.as_str(), params.as_slice())), ..no_frills() };
    let (rows, _) = all(&conn, &schema_family, "song", Some(cfg), true).unwrap();
    // 'First' and 'Third' hold the substring
    assert_eq!(rows.len(), 2);

    let exact = SearchConfig {
        table: "song".to_string(),
        col: "name".to_string(),
        keyword: "First".to_string(),
        exact: Some(true),
    };
    let (clause, params) = search_condition(&schema_family, &exact).unwrap();
    assert_eq!(clause, "name = ?");
    let cfg = FetchConfig { where_config: Some((clause.as_str(), params.as_slice())), ..no_frills() };
    let (rows, _) = all(&conn, &schema_family, "song", Some(cfg), true).unwrap();
    assert_eq!(rows.len(), 1);
}

#[test]
fn test_custom_sql_injection_prevention() {
    let conn = Connection::open_in_memory().unwrap();
    initialize_db(&conn);
    let schema_family = fetch_schema_family(&conn, &[], "", "").unwrap();

    let cfg = FetchConfig { order_by: Some("id; DROP TABLE song; --"), ..no_frills() };
    let r = all(&conn, &schema_family, "song", Some(cfg), true);
    assert!(matches!(
        r,
        Err(jankenstore::error::StoreError::IllegalByChars { .. })
    ));

    let cfg = FetchConfig { group_by: Some("memo /* sneaky */"), ..no_frills() };
    let r = all(&conn, &schema_family, "song", Some(cfg), true);
    assert!(matches!(
        r,
        Err(jankenstore::error::StoreError::IllegalByChars { .. })
    ));
}

#[test]
fn test_build_read_sql_text() {
    let params = vec![v_txt("big")];
    let cfg = FetchConfig {
        is_distinct: true,
        display_cols: Some(&["name", "memo"]),
        where_config: Some(("memo = ?", params.as_slice())),
        order_by: Some(" name "),
        limit: Some(5),
        offset: Some(2),
        group_by: Some("memo x"),
    };
    let stmts = jankenstore::basics::build_read_sql("song", Some(cfg));
    assert_eq!(
        stmts.paged,
        "SELECT DISTINCT name, memo FROM song WHERE memo = ? GROUP BY memox ORDER BY name LIMIT 5 OFFSET 2"
    );
    assert_eq!(
        stmts.unpaged,
        "SELECT DISTINCT name, memo FROM song WHERE memo = ? GROUP BY memox ORDER BY name"
    );
    assert_eq!(stmts.params, params);

    let plain = jankenstore::basics::build_read_sql("song", None);
    assert_eq!(plain.paged, "SELECT  * FROM song ");
    assert!(plain.params.is_empty());
}
