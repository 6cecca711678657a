use jankenstore::error::StoreError;
use jankenstore::resolve::resolve_schema_family;
use jankenstore::schema::ColumnMeta;
use jankenstore::value::{v_int, v_txt, DbType, DbValue};
use jankenstore::verify::{get_verified_input, VerifyConf};

fn col(name: &str, t: DbType, required: bool, pk: bool) -> (String, ColumnMeta) {
    let default = match t {
        DbType::Integer => DbValue::Integer(0),
        DbType::Text => DbValue::Text(String::new()),
        _ => DbValue::Blob(vec![]),
    };
    (
        name.to_string(),
        ColumnMeta { name: name.to_string(), col_type: t, is_required: required, default, is_pk: pk },
    )
}

fn library_tables() -> Vec<(String, Vec<(String, ColumnMeta)>)> {
    vec![
        (
            "song".to_string(),
            vec![
                col("id", DbType::Integer, false, true),
                col("name", DbType::Text, true, false),
                col("artist_id", DbType::Integer, false, false),
                col("memo", DbType::Text, false, false),
            ],
        ),
        (
            "artist".to_string(),
            vec![
                col("id", DbType::Integer, false, true),
                col("name", DbType::Text, false, false),
            ],
        ),
        (
            "album".to_string(),
            vec![
                col("id", DbType::Integer, false, true),
                col("name", DbType::Text, false, false),
            ],
        ),
        (
            "rel_album_song".to_string(),
            vec![
                col("album_id", DbType::Integer, true, false),
                col("song_id", DbType::Integer, true, false),
            ],
        ),
    ]
}

#[test]
fn test_resolve_family_example() {
    let tables = library_tables();
    let family = resolve_schema_family(&tables, "rel", "_").unwrap();

    let parents_of_song =
        &family.parents.iter().find(|(k, _)| k == "song").unwrap().1;
    assert_eq!(parents_of_song, &vec!["artist".to_string()]);
    let peers_of_song = &family.peers.iter().find(|(k, _)| k == "song").unwrap().1;
    assert_eq!(peers_of_song, &vec!["album".to_string()]);
    let link = &family.peer_link_tables.iter().find(|(k, _)| k == "song").unwrap().1;
    assert_eq!(link, "rel_album_song");

    let song_schema = &family.map.iter().find(|(k, _)| k == "song").unwrap().1;
    assert_eq!(song_schema.pk, "id");
    // name is NOT NULL, id is the primary key, artist_id follows the
    // foreign-key convention: all three are required
    for required in ["id", "name", "artist_id"] {
        assert!(song_schema.required_fields.contains(&required.to_string()));
    }
    assert!(!song_schema.required_fields.contains(&"memo".to_string()));
}

#[test]
fn test_resolve_family_malformed_junction() {
    let mut tables = library_tables();
    tables.push((
        "rel_writer_audience_company".to_string(),
        vec![col("id", DbType::Integer, false, true)],
    ));
    let r = resolve_schema_family(&tables, "rel", "_");
    match r {
        Err(StoreError::BadPeerTableName { table }) => {
            assert_eq!(table, "rel_writer_audience_company")
        },
        other => panic!("expected a malformed junction name error, got {:?}", other),
    }
}

#[test]
fn test_verify_full_mode_fills_and_checks() {
    let tables = library_tables();
    let family = resolve_schema_family(&tables, "rel", "_").unwrap();

    let input = vec![
        ("id".to_string(), v_int(7)),
        ("name".to_string(), v_txt("tune")),
        ("artist_id".to_string(), v_int(1)),
    ];
    let rec = get_verified_input(
        &family,
        "song",
        &input,
        VerifyConf { default_if_absent: false, must_have_every_col: true },
    )
    .unwrap();
    // full-column mode: the record holds every schema column, memo filled
    // with its default
    assert_eq!(rec.len(), 4);
    let memo = &rec.iter().find(|(k, _)| k == "memo").unwrap().1;
    assert_eq!(memo, &v_txt(""));

    // a required column left out without a usable default is refused
    let missing = vec![("id".to_string(), v_int(8)), ("name".to_string(), v_txt("x"))];
    let r = get_verified_input(
        &family,
        "song",
        &missing,
        VerifyConf { default_if_absent: false, must_have_every_col: true },
    );
    match r {
        Err(StoreError::RequiredFieldMissing { column, .. }) => assert_eq!(column, "artist_id"),
        other => panic!("expected a required-field error, got {:?}", other),
    }
}

#[test]
fn test_verify_partial_mode_accepts_omissions() {
    let tables = library_tables();
    let family = resolve_schema_family(&tables, "rel", "_").unwrap();

    // partial mode: a payload naming only one optional column passes, and
    // nothing else is filled in
    let input = vec![("memo".to_string(), v_txt("note"))];
    let rec = get_verified_input(
        &family,
        "song",
        &input,
        VerifyConf { default_if_absent: false, must_have_every_col: false },
    )
    .unwrap();
    assert_eq!(rec.len(), 1);
    assert_eq!(rec[0].0, "memo");
}

#[test]
fn test_verify_default_if_absent() {
    let tables = library_tables();
    let family = resolve_schema_family(&tables, "rel", "_").unwrap();

    // an empty supplied value falls back to the column default when asked
    let input = vec![("memo".to_string(), v_txt("   "))];
    let rec = get_verified_input(
        &family,
        "song",
        &input,
        VerifyConf { default_if_absent: true, must_have_every_col: false },
    )
    .unwrap();
    assert_eq!(rec[0].1, v_txt(""));
}
