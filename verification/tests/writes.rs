use jankenstore::add::{create, create_child_of};
use jankenstore::delete::{delete, delete_children_of};
use jankenstore::error::StoreError;
use jankenstore::peer::{link, unlink};
use jankenstore::read::{all, by_pk, children_of};
use jankenstore::resolve::fetch_schema_family;
use jankenstore::update::{update_by_pk, update_children_of};
use jankenstore::value::{v_blo, v_int, v_txt, DbValue};
use rusqlite::Connection;

fn initialize_db(conn: &Connection) {
    conn.execute_batch(
        "CREATE TABLE song (
            id INTEGER PRIMARY KEY,
            name TEXT NOT NULL,
            artist_id INTEGER,
            file BLOB,
            memo TEXT DEFAULT ''
        );
        CREATE TABLE artist (
            id INTEGER PRIMARY KEY,
            name TEXT
        );
        CREATE TABLE album (
            id INTEGER PRIMARY KEY,
            name TEXT,
            memo TEXT DEFAULT ''
        );
        CREATE TABLE rel_album_song (
            album_id INTEGER NOT NULL,
            song_id INTEGER NOT NULL,
            PRIMARY KEY (album_id, song_id)
        );
        INSERT INTO artist (id, name) VALUES (1, 'Louis Armstrong');
        INSERT INTO artist (id, name) VALUES (24, 'Simon & Garfunkel');
        INSERT INTO song (id, name, artist_id, memo) VALUES (1, 'When the Saints Go Marching In', 1, '30s');
        INSERT INTO album (id, name) VALUES (1, 'Greatest Hits');
        INSERT INTO rel_album_song (album_id, song_id) VALUES (1, 1);",
    )
    .unwrap();
}

fn field<'a>(row: &'a [(String, DbValue)], name: &str) -> &'a DbValue {
    &row.iter().find(|(k, _)| k == name).unwrap().1
}

fn count_links(conn: &Connection, album: i64, song: i64) -> i64 {
    conn.query_row(
        "SELECT COUNT(*) FROM rel_album_song WHERE album_id = ?1 AND song_id = ?2",
        [album, song],
        |row| row.get(0),
    )
    .unwrap()
}

#[test]
fn test_create() {
    let conn = Connection::open_in_memory().unwrap();
    initialize_db(&conn);
    let schema_family = fetch_schema_family(&conn, &[], "", "").unwrap();

    let input = vec![
        ("id".to_string(), v_int(42)),
        ("name".to_string(), v_txt("test")),
        ("artist_id".to_string(), v_int(24)),
        ("file".to_string(), v_blo(&[123, 45, 67])),
        ("memo".to_string(), v_txt("gogo")),
    ];
    create(&conn, &schema_family, "song", &input, false).unwrap();

    // round trip: reading the created record back by primary key yields
    // the same values
    let (rows, total) = by_pk(&conn, &schema_family, "song", &[v_int(42)], None, false).unwrap();
    assert_eq!(total, 1);
    assert_eq!(rows.len(), 1);
    assert_eq!(field(&rows[0], "id"), &v_int(42));
    assert_eq!(field(&rows[0], "name"), &v_txt("test"));
    assert_eq!(field(&rows[0], "artist_id"), &v_int(24));
    assert_eq!(field(&rows[0], "file"), &v_blo(&[123, 45, 67]));
    assert_eq!(field(&rows[0], "memo"), &v_txt("gogo"));
}

#[test]
fn test_create_fills_defaults() {
    let conn = Connection::open_in_memory().unwrap();
    initialize_db(&conn);
    let schema_family = fetch_schema_family(&conn, &[], "", "").unwrap();

    let input = vec![
        ("id".to_string(), v_int(43)),
        ("name".to_string(), v_txt("quiet")),
        ("artist_id".to_string(), v_int(1)),
    ];
    create(&conn, &schema_family, "song", &input, true).unwrap();

    let (rows, _) = by_pk(&conn, &schema_family, "song", &[v_int(43)], None, true).unwrap();
    // the absent memo and file columns were filled with their defaults
    assert_eq!(field(&rows[0], "memo"), &v_txt(""));
    assert_eq!(field(&rows[0], "file"), &v_blo(&[]));
}

#[test]
fn test_create_missing_required() {
    let conn = Connection::open_in_memory().unwrap();
    initialize_db(&conn);
    let schema_family = fetch_schema_family(&conn, &[], "", "").unwrap();

    // artist_id follows the foreign-key convention, so it is required:
    // leaving it out without default substitution must fail, naming it
    let input = vec![
        ("id".to_string(), v_int(50)),
        ("name".to_string(), v_txt("orphan")),
    ];
    let r = create(&conn, &schema_family, "song", &input, false);
    match r {
        Err(StoreError::RequiredFieldMissing { table, column }) => {
            assert_eq!(table, "song");
            assert_eq!(column, "artist_id");
        },
        other => panic!("expected a required-field error, got {:?}", other),
    }
}

#[test]
fn test_create_child() {
    let conn = Connection::open_in_memory().unwrap();
    initialize_db(&conn);
    let schema_family = fetch_schema_family(&conn, &[], "", "").unwrap();

    let input = vec![
        ("id".to_string(), v_int(77)),
        ("name".to_string(), v_txt("child song")),
    ];
    let parents = vec![("artist".to_string(), v_int(24))];
    create_child_of(&conn, &schema_family, "song", &parents, &input, true).unwrap();

    let (rows, _) = by_pk(&conn, &schema_family, "song", &[v_int(77)], None, true).unwrap();
    assert_eq!(field(&rows[0], "artist_id"), &v_int(24));

    let parent_info = vec![("artist".to_string(), vec![v_int(24)])];
    let (kids, _) = children_of(&conn, &schema_family, "song", &parent_info, None, true).unwrap();
    assert_eq!(kids.len(), 1);
    assert_eq!(field(&kids[0], "id"), &v_int(77));
}

#[test]
fn test_update() {
    let conn = Connection::open_in_memory().unwrap();
    initialize_db(&conn);
    let schema_family = fetch_schema_family(&conn, &[], "", "").unwrap();

    let input = vec![("memo".to_string(), v_txt("updated"))];
    update_by_pk(&conn, &schema_family, "song", &input, &[v_int(1)], None, false).unwrap();

    let (rows, _) = by_pk(&conn, &schema_family, "song", &[v_int(1)], None, true).unwrap();
    assert_eq!(field(&rows[0], "memo"), &v_txt("updated"));
    // the rest of the record is untouched
    assert_eq!(field(&rows[0], "name"), &v_txt("When the Saints Go Marching In"));
}

#[test]
fn test_update_pk_forbidden() {
    let conn = Connection::open_in_memory().unwrap();
    initialize_db(&conn);
    let schema_family = fetch_schema_family(&conn, &[], "", "").unwrap();

    let input = vec![("id".to_string(), v_int(9))];
    let r = update_by_pk(&conn, &schema_family, "song", &input, &[v_int(1)], None, false);
    assert!(matches!(r, Err(StoreError::PkNotUpdatable { .. })));
}

#[test]
fn test_update_children() {
    let conn = Connection::open_in_memory().unwrap();
    initialize_db(&conn);
    let schema_family = fetch_schema_family(&conn, &[], "", "").unwrap();

    let parent_info = vec![("artist".to_string(), vec![v_int(1)])];
    let input = vec![("memo".to_string(), v_txt("of artist one"))];
    update_children_of(&conn, &schema_family, "song", &parent_info, &input, None, false).unwrap();

    let (rows, _) = by_pk(&conn, &schema_family, "song", &[v_int(1)], None, true).unwrap();
    assert_eq!(field(&rows[0], "memo"), &v_txt("of artist one"));
}

#[test]
fn test_delete() {
    let conn = Connection::open_in_memory().unwrap();
    initialize_db(&conn);
    let schema_family = fetch_schema_family(&conn, &[], "", "").unwrap();

    delete(&conn, &schema_family, "song", &[v_int(1)], None).unwrap();
    let (rows, total) = by_pk(&conn, &schema_family, "song", &[v_int(1)], None, false).unwrap();
    assert_eq!(rows.len(), 0);
    assert_eq!(total, 0);
}

#[test]
fn test_delete_children() {
    let conn = Connection::open_in_memory().unwrap();
    initialize_db(&conn);
    let schema_family = fetch_schema_family(&conn, &[], "", "").unwrap();

    let parent_info = vec![("artist".to_string(), vec![v_int(1)])];
    delete_children_of(&conn, &schema_family, "song", &parent_info, None).unwrap();
    let (rows, _) = all(&conn, &schema_family, "song", None, true).unwrap();
    assert_eq!(rows.len(), 0);
}

#[test]
fn test_link_peers() {
    let conn = Connection::open_in_memory().unwrap();
    initialize_db(&conn);
    let schema_family = fetch_schema_family(&conn, &[], "", "").unwrap();

    conn.execute("INSERT INTO song (id, name, artist_id) VALUES (2, 'second', 1)", [])
        .unwrap();
    let inputs = vec![
        ("song".to_string(), vec![v_int(2)]),
        ("album".to_string(), vec![v_int(1)]),
    ];
    link(&conn, &schema_family, &inputs).unwrap();
    assert_eq!(count_links(&conn, 1, 2), 1);

    // linking the same pair twice leaves exactly one junction row
    link(&conn, &schema_family, &inputs).unwrap();
    assert_eq!(count_links(&conn, 1, 2), 1);
}

#[test]
fn test_unlink_peers() {
    let conn = Connection::open_in_memory().unwrap();
    initialize_db(&conn);
    let schema_family = fetch_schema_family(&conn, &[], "", "").unwrap();

    let inputs = vec![
        ("song".to_string(), vec![v_int(1)]),
        ("album".to_string(), vec![v_int(1)]),
    ];
    assert_eq!(count_links(&conn, 1, 1), 1);
    unlink(&conn, &schema_family, &inputs).unwrap();
    assert_eq!(count_links(&conn, 1, 1), 0);

    // unlinking a pair that is not linked is a no-op, not an error
    unlink(&conn, &schema_family, &inputs).unwrap();
    assert_eq!(count_links(&conn, 1, 1), 0);
}
