use jankenstore::peer::peer_matching_clause;

#[test]
fn test_peer_matching_clause_empty_bond() {
    let rel_name = "rel_user_role";
    let fk_name = "role_id";
    let source_name = "user";
    let source_pk = "id";
    let bond_matching_clause = "";
    let expected = "EXISTS (SELECT 1 FROM rel_user_role WHERE role_id = user.id )";
    let actual = peer_matching_clause(
        rel_name,
        fk_name,
        (source_name, source_pk),
        bond_matching_clause,
    );
    assert_eq!(expected, actual);
}

#[test]
fn test_peer_matching_clause_with_bond() {
    let actual = peer_matching_clause(
        "rel_album_song",
        "song_id",
        ("song", "id"),
        "album_id IN (?)",
    );
    assert_eq!(
        actual,
        "EXISTS (SELECT 1 FROM rel_album_song WHERE song_id = song.id AND album_id IN (?))"
    );
}

#[test]
fn peer_test_peer_matching_clause_empty_bond() {
    let expected = "EXISTS (SELECT 1 FROM rel_user_role WHERE role_id = user.id )";
    let actual = peer_matching_clause("rel_user_role", "role_id", ("user", "id"), "");
    assert_eq!(expected, actual);
}
