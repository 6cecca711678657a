use jankenstore::basics::{contains_illegal_by_chars, is_empty};
use jankenstore::schema::{get_default_db_value, get_type_from_str};
use jankenstore::sql::{in_them, merge_q_configs, standardize_q_config};
use jankenstore::strutil::{i64_to_string, remove_spaces, split_on, trim_str};
use jankenstore::value::{are_same_type, v_blo, v_int, v_txt, DbType, DbValue};
use jankenstore::verify::{fk_name, verify_table_name, verify_where_clause};

#[test]
fn test_val_converts() {
    assert_eq!(v_txt("test"), DbValue::Text("test".to_string()));
    assert_eq!(v_int(1), DbValue::Integer(1));
    assert_eq!(v_blo(&[1, 2, 3]), DbValue::Blob(vec![1, 2, 3]));
}

#[test]
fn test_special_is_empty() {
    let val = DbValue::Null;
    assert!(is_empty(&val));

    assert!(is_empty(&DbValue::Blob(vec![])));

    assert!(!is_empty(&DbValue::Blob(vec![1])));

    assert!(is_empty(&DbValue::Text("".to_string())));
    assert!(is_empty(&DbValue::Text(" ".to_string())));
    assert!(!is_empty(&DbValue::Text("a".to_string())));
    assert!(!is_empty(&DbValue::Integer(0)));
}

#[test]
fn test_are_same_type() {
    assert!(are_same_type(&v_int(1), &v_int(7)));
    assert!(!are_same_type(&v_int(1), &v_txt("1")));
    assert!(are_same_type(&DbValue::Null, &DbValue::Null));
}

#[test]
fn test_standardize_q_config() {
    let params = vec![v_int(1)];
    let q_config = Some(("id = ?", params.as_slice()));
    let (clause, params) = standardize_q_config(q_config, "AND");
    assert_eq!(clause, "AND id = ?");
    assert_eq!(params, vec![v_int(1)]);

    let (clause, params) = standardize_q_config(Some(("   ", params.as_slice())), "AND");
    assert_eq!(clause, "");
    assert!(params.is_empty());

    let (clause, params) = standardize_q_config(None, "WHERE");
    assert_eq!(clause, "");
    assert!(params.is_empty());
}

#[test]
fn test_merge_q_configs() {
    let params1 = vec![v_int(1)];
    let q_config1 = Some(("id = ?", params1.as_slice()));
    let params2 = vec![v_int(2)];
    let q_config2 = Some(("name = ?", params2.as_slice()));
    let (clause, params) = merge_q_configs(q_config1, q_config2, "AND");
    assert_eq!(clause, "(id = ? AND name = ?)");
    assert_eq!(params, vec![v_int(1), v_int(2)]);
}

#[test]
fn test_in_them() {
    let vals = vec![v_int(1), v_int(2), v_int(3)];
    let (clause, params) = in_them("id", vals.as_slice());
    assert_eq!(clause, "id IN (?, ?, ?)");
    assert_eq!(params, vals);

    let empty: Vec<DbValue> = vec![];
    let (clause, params) = in_them("id", empty.as_slice());
    assert_eq!(clause, "id IN ()");
    assert!(params.is_empty());
}

#[test]
fn test_type_parsing() {
    assert_eq!(get_type_from_str(" integer "), DbType::Integer);
    assert_eq!(get_type_from_str("INTEGER"), DbType::Integer);
    assert_eq!(get_type_from_str("Real"), DbType::Real);
    assert_eq!(get_type_from_str("TEXT"), DbType::Text);
    assert_eq!(get_type_from_str("blob"), DbType::Blob);
    assert_eq!(get_type_from_str("TIMESTAMP"), DbType::Null);
    assert_eq!(get_type_from_str(""), DbType::Null);
}

#[test]
fn test_default_values() {
    assert_eq!(get_default_db_value(DbType::Integer), DbValue::Integer(0));
    assert_eq!(get_default_db_value(DbType::Text), DbValue::Text(String::new()));
    assert_eq!(get_default_db_value(DbType::Blob), DbValue::Blob(vec![]));
    assert_eq!(get_default_db_value(DbType::Null), DbValue::Null);
}

#[test]
fn test_string_tools() {
    assert_eq!(i64_to_string(0), "0");
    assert_eq!(i64_to_string(42), "42");
    assert_eq!(i64_to_string(-137), "-137");
    assert_eq!(i64_to_string(i64::MIN), "-9223372036854775808");
    assert_eq!(trim_str("  a b  "), "a b");
    assert_eq!(trim_str(" \t\n "), "");
    assert_eq!(remove_spaces(" a, b ,c "), "a,b,c");
    assert_eq!(split_on("rel_album_song", "_"), vec!["rel", "album", "song"]);
    assert_eq!(split_on("a__b", "__"), vec!["a", "b"]);
    assert_eq!(split_on("plain", "_"), vec!["plain"]);
}

#[test]
fn test_fk_name() {
    assert_eq!(fk_name("artist"), "artist_id");
}

#[test]
fn test_verify_table_name() {
    assert!(verify_table_name("song").is_ok());
    assert!(verify_table_name("").is_err());
}

#[test]
fn test_verify_where_clause() {
    assert!(verify_where_clause("id = ?").is_ok());
    assert!(verify_where_clause("  ").is_err());
    assert!(verify_where_clause("").is_err());
}

#[test]
fn test_illegal_by_chars() {
    assert!(!contains_illegal_by_chars(" ORDER BY name"));
    assert!(contains_illegal_by_chars("name; --"));
    assert!(contains_illegal_by_chars("name /* x */"));
    assert!(contains_illegal_by_chars("na@me"));
    assert!(contains_illegal_by_chars("a\nb"));
}

#[test]
fn test_build_insert_sql_text() {
    let input = vec![
        ("id".to_string(), v_int(1)),
        ("name".to_string(), v_txt("x")),
    ];
    let (sql, params) = jankenstore::basics::build_insert_sql("song", &input);
    assert_eq!(sql, "INSERT INTO song (id, name) VALUES (?, ?)");
    assert_eq!(params, vec![v_int(1), v_txt("x")]);
}

#[test]
fn test_build_update_sql_text() {
    let input = vec![("memo".to_string(), v_txt("m"))];
    let wparams = vec![v_int(7)];
    let (sql, params) =
        jankenstore::basics::build_update_sql("song", &input, ("id = ?", wparams.as_slice()));
    assert_eq!(sql, "UPDATE song SET memo = ? WHERE id = ?");
    assert_eq!(params, vec![v_txt("m"), v_int(7)]);
}
