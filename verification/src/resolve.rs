//! The relationship resolver: given every table's name and column metadata,
//! infer which tables are parents and children (through foreign-key column
//! names) and which are peers (through junction tables), and build the
//! schema family. Resolution always works over the full set of tables,
//! since a column can be classified as a foreign key only once the
//! candidate parent's primary-key type is known.

use vstd::prelude::*;

use crate::assoc::{
    assoc_get, assoc_has, has_key, keys_distinct, lemma_has_key_pointwise, lemma_lookup_exists,
    lemma_lookup_index, lookup,
};
use crate::error::StoreError;
use crate::family::{add_link, rel_has, set_name, SchemaFamily};
use crate::schema::{
    column_meta_items_to_schema, first_pk, first_pk_col, schema_from_meta, ColumnMeta, Schema,
};
use crate::strutil::{has_prefix, split_text, starts_with_str, views_of_strs};
use crate::value::{DbType, DbValue};

verus! {

/// The name and column metadata of one table, as read from the catalog.
pub type TableMeta = (String, Vec<(String, ColumnMeta)>);

/// Whether a table name marks the table as a junction candidate: it starts
/// with the peer prefix followed by the splitter.
pub open spec fn junction_name(name: Seq<char>, prefix: Seq<char>, splitter: Seq<char>) -> bool {
    has_prefix(name, prefix + splitter)
}

/// The peer-name segments of a junction table: what remains of its name
/// after the prefix and splitter, cut at each further splitter.
pub open spec fn junction_segs(name: Seq<char>, prefix: Seq<char>, splitter: Seq<char>) -> Seq<
    Seq<char>,
> {
    split_text(name.skip((prefix + splitter).len() as int), splitter)
}

/// The canonical foreign-key column name referencing a table: the table's
/// name, an underscore, and its primary-key column.
pub open spec fn fk_col_of(table: Seq<char>, pk: Seq<char>) -> Seq<char> {
    table + "_"@ + pk
}

/// The foreign-key column name other tables would use to reference this
/// table.
pub open spec fn meta_fk_name(t: TableMeta) -> Seq<char> {
    fk_col_of(t.0@, first_pk(t.1@))
}

/// The type of a table's primary-key column; `Null` when it has none.
pub open spec fn meta_pk_type(t: TableMeta) -> DbType {
    match lookup(t.1@, first_pk(t.1@)) {
        Some(m) => m.col_type,
        None => DbType::Null,
    }
}

/// The entity table, scanning in order, whose canonical foreign-key name is
/// `col`, together with its primary-key type.
pub open spec fn fk_owner(
    tables: Seq<TableMeta>,
    prefix: Seq<char>,
    splitter: Seq<char>,
    col: Seq<char>,
) -> Option<(Seq<char>, DbType)>
    decreases tables.len(),
{
    if tables.len() == 0 {
        None
    } else if !junction_name(tables.first().0@, prefix, splitter) && col == meta_fk_name(
        tables.first(),
    ) {
        Some((tables.first().0@, meta_pk_type(tables.first())))
    } else {
        fk_owner(tables.drop_first(), prefix, splitter, col)
    }
}

proof fn lemma_fk_owner_push(
    tables: Seq<TableMeta>,
    prefix: Seq<char>,
    splitter: Seq<char>,
    t: TableMeta,
    col: Seq<char>,
)
    ensures
        fk_owner(tables.push(t), prefix, splitter, col) == if fk_owner(
            tables,
            prefix,
            splitter,
            col,
        ) is Some {
            fk_owner(tables, prefix, splitter, col)
        } else if !junction_name(t.0@, prefix, splitter) && col == meta_fk_name(t) {
            Some((t.0@, meta_pk_type(t)))
        } else {
            None::<(Seq<char>, DbType)>
        },
    decreases tables.len(),
{
    if tables.len() == 0 {
        assert(tables.push(t).first() == t);
        if junction_name(t.0@, prefix, splitter) || col != meta_fk_name(t) {
            assert(tables.push(t).drop_first() =~= Seq::<TableMeta>::empty());
            assert(fk_owner(Seq::<TableMeta>::empty(), prefix, splitter, col) is None);
        }
    } else {
        assert(tables.push(t).first() == tables.first());
        assert(tables.push(t).drop_first() =~= tables.drop_first().push(t));
        lemma_fk_owner_push(tables.drop_first(), prefix, splitter, t, col);
        if !junction_name(tables.first().0@, prefix, splitter) && col == meta_fk_name(
            tables.first(),
        ) {
            assert(fk_owner(tables.push(t), prefix, splitter, col) == Some(
                (tables.first().0@, meta_pk_type(tables.first())),
            ));
            assert(fk_owner(tables, prefix, splitter, col) == Some(
                (tables.first().0@, meta_pk_type(tables.first())),
            ));
        } else {
            assert(fk_owner(tables.push(t), prefix, splitter, col) == fk_owner(
                tables.drop_first().push(t),
                prefix,
                splitter,
                col,
            ));
            assert(fk_owner(tables, prefix, splitter, col) == fk_owner(
                tables.drop_first(),
                prefix,
                splitter,
                col,
            ));
        }
    }
}

/// The canonical foreign-key column names of the entity tables, in table
/// order: one `<table>_<that table's primary key>` per non-junction table.
pub open spec fn conv_fk_names(
    tables: Seq<TableMeta>,
    prefix: Seq<char>,
    splitter: Seq<char>,
) -> Seq<Seq<char>>
    decreases tables.len(),
{
    if tables.len() == 0 {
        Seq::empty()
    } else if !junction_name(tables.first().0@, prefix, splitter) {
        seq![meta_fk_name(tables.first())] + conv_fk_names(tables.drop_first(), prefix, splitter)
    } else {
        conv_fk_names(tables.drop_first(), prefix, splitter)
    }
}

proof fn lemma_conv_fk_names_push(
    tables: Seq<TableMeta>,
    prefix: Seq<char>,
    splitter: Seq<char>,
    t: TableMeta,
)
    ensures
        conv_fk_names(tables.push(t), prefix, splitter) == conv_fk_names(tables, prefix, splitter)
            + (if !junction_name(t.0@, prefix, splitter) {
            seq![meta_fk_name(t)]
        } else {
            Seq::<Seq<char>>::empty()
        }),
    decreases tables.len(),
{
    if tables.len() == 0 {
        assert(tables.push(t).first() == t);
        assert(tables.push(t).drop_first() =~= Seq::<TableMeta>::empty());
        assert(conv_fk_names(Seq::<TableMeta>::empty(), prefix, splitter) =~= Seq::<
            Seq<char>,
        >::empty());
        if !junction_name(t.0@, prefix, splitter) {
            assert(conv_fk_names(tables.push(t), prefix, splitter) =~= seq![meta_fk_name(t)]);
            assert(conv_fk_names(tables, prefix, splitter) + seq![meta_fk_name(t)] =~= seq![
                meta_fk_name(t),
            ]);
        } else {
            assert(conv_fk_names(tables, prefix, splitter) + Seq::<Seq<char>>::empty() =~= Seq::<
                Seq<char>,
            >::empty());
        }
    } else {
        assert(tables.push(t).first() == tables.first());
        assert(tables.push(t).drop_first() =~= tables.drop_first().push(t));
        lemma_conv_fk_names_push(tables.drop_first(), prefix, splitter, t);
        if !junction_name(tables.first().0@, prefix, splitter) {
            assert(seq![meta_fk_name(tables.first())] + (conv_fk_names(
                tables.drop_first(),
                prefix,
                splitter,
            ) + (if !junction_name(t.0@, prefix, splitter) {
                seq![meta_fk_name(t)]
            } else {
                Seq::<Seq<char>>::empty()
            })) =~= (seq![meta_fk_name(tables.first())] + conv_fk_names(
                tables.drop_first(),
                prefix,
                splitter,
            )) + (if !junction_name(t.0@, prefix, splitter) {
                seq![meta_fk_name(t)]
            } else {
                Seq::<Seq<char>>::empty()
            }));
        }
    }
}

/// A name stands among the canonical foreign-key column names exactly when
/// some entity table owns it: the required-column convention and the
/// parent-resolution convention are one and the same.
pub proof fn lemma_fk_names_are_owners(
    tables: Seq<TableMeta>,
    prefix: Seq<char>,
    splitter: Seq<char>,
    k: Seq<char>,
)
    ensures
        conv_fk_names(tables, prefix, splitter).contains(k) <==> fk_owner(
            tables,
            prefix,
            splitter,
            k,
        ) is Some,
    decreases tables.len(),
{
    if tables.len() == 0 {
    } else {
        lemma_fk_names_are_owners(tables.drop_first(), prefix, splitter, k);
        let rest = conv_fk_names(tables.drop_first(), prefix, splitter);
        if !junction_name(tables.first().0@, prefix, splitter) {
            let whole = seq![meta_fk_name(tables.first())] + rest;
            if whole.contains(k) {
                let x = choose|x: int| 0 <= x < whole.len() && whole[x] == k;
                if x > 0 {
                    assert(rest[x - 1] == k);
                    assert(rest.contains(k));
                }
            }
            if k == meta_fk_name(tables.first()) {
                assert(whole[0] == k);
            }
            if rest.contains(k) {
                let x = choose|x: int| 0 <= x < rest.len() && rest[x] == k;
                assert(whole[x + 1] == k);
            }
        }
    }
}

/// Table `i` is an entity table named `c` whose column `x` is a foreign key
/// to `p` with the matching type.
pub open spec fn parent_edge_at(
    tables: Seq<TableMeta>,
    prefix: Seq<char>,
    splitter: Seq<char>,
    c: Seq<char>,
    p: Seq<char>,
    i: int,
    x: int,
) -> bool {
    &&& 0 <= i < tables.len()
    &&& tables[i].0@ == c
    &&& !junction_name(c, prefix, splitter)
    &&& 0 <= x < tables[i].1@.len()
    &&& (fk_owner(tables, prefix, splitter, tables[i].1@[x].0@) matches Some(o) && o.0 == p
        && tables[i].1@[x].1.col_type == o.1)
}

/// Some entity table named `c` holds a foreign-key column referencing `p`
/// with the matching type.
pub open spec fn parent_edge(
    tables: Seq<TableMeta>,
    prefix: Seq<char>,
    splitter: Seq<char>,
    c: Seq<char>,
    p: Seq<char>,
) -> bool {
    exists|i: int, x: int| parent_edge_at(tables, prefix, splitter, c, p, i, x)
}

/// Some entity table holds a column that names a foreign key but whose type
/// differs from the referenced primary key's.
pub open spec fn fk_mismatch(
    tables: Seq<TableMeta>,
    prefix: Seq<char>,
    splitter: Seq<char>,
) -> bool {
    exists|i: int, x: int|
        #![trigger tables[i].1@[x]]
        0 <= i < tables.len() && !junction_name(tables[i].0@, prefix, splitter) && 0 <= x
            < tables[i].1@.len() && (fk_owner(tables, prefix, splitter, tables[i].1@[x].0@)
            matches Some(o) && tables[i].1@[x].1.col_type != o.1)
}

/// Junction table `i` names `a` and `b` as its two peers, in either order.
pub open spec fn peer_pair_at(
    tables: Seq<TableMeta>,
    prefix: Seq<char>,
    splitter: Seq<char>,
    i: int,
    a: Seq<char>,
    b: Seq<char>,
) -> bool {
    &&& 0 <= i < tables.len()
    &&& junction_name((#[trigger] tables[i]).0@, prefix, splitter)
    &&& {
        let segs = junction_segs(tables[i].0@, prefix, splitter);
        segs.len() == 2 && ((segs[0] == a && segs[1] == b) || (segs[0] == b && segs[1] == a))
    }
}

/// The two tables are named together by some junction table.
pub open spec fn peer_edge(
    tables: Seq<TableMeta>,
    prefix: Seq<char>,
    splitter: Seq<char>,
    a: Seq<char>,
    b: Seq<char>,
) -> bool {
    exists|i: int| peer_pair_at(tables, prefix, splitter, i, a, b)
}

/// Junction `j` is a junction table of the set that names `t` as one of its
/// two peers.
pub open spec fn link_table_for(
    tables: Seq<TableMeta>,
    prefix: Seq<char>,
    splitter: Seq<char>,
    t: Seq<char>,
    j: Seq<char>,
) -> bool {
    exists|i: int|
        0 <= i < tables.len() && (#[trigger] tables[i]).0@ == j && junction_name(
            j,
            prefix,
            splitter,
        ) && {
            let segs = junction_segs(j, prefix, splitter);
            segs.len() == 2 && (segs[0] == t || segs[1] == t)
        }
}

/// The junction's segment `seg`, when it is a known table, has its
/// foreign-key column present among the junction's columns.
pub open spec fn seg_fk_ok(
    tables: Seq<TableMeta>,
    jcols: Seq<(String, ColumnMeta)>,
    seg: Seq<char>,
) -> bool {
    match lookup(tables, seg) {
        Some(cols) => has_key(jcols, fk_col_of(seg, first_pk(cols@))),
        None => true,
    }
}

/// Junction table `i` is well-formed: exactly two peer segments, both
/// naming known tables, each with its foreign-key column present in the
/// junction.
pub open spec fn junction_valid(
    tables: Seq<TableMeta>,
    prefix: Seq<char>,
    splitter: Seq<char>,
    i: int,
) -> bool {
    let segs = junction_segs(tables[i].0@, prefix, splitter);
    &&& segs.len() == 2
    &&& seg_fk_ok(tables, tables[i].1@, segs[0])
    &&& seg_fk_ok(tables, tables[i].1@, segs[1])
    &&& has_key(tables, segs[0])
    &&& has_key(tables, segs[1])
}

/// The whole set of tables resolves: every junction candidate is
/// well-formed and no foreign-key column's type contradicts the primary key
/// it references.
pub open spec fn resolvable(
    tables: Seq<TableMeta>,
    prefix: Seq<char>,
    splitter: Seq<char>,
) -> bool {
    &&& forall|i: int|
        0 <= i < tables.len() && junction_name((#[trigger] tables[i]).0@, prefix, splitter)
            ==> junction_valid(tables, prefix, splitter, i)
    &&& !fk_mismatch(tables, prefix, splitter)
}

/// The junction's segment `seg`, when the primary-key map knows it, has its
/// foreign-key column present among the junction's columns.
pub open spec fn pk_fk_ok(
    pkmap: Seq<(String, String)>,
    jcols: Seq<(String, ColumnMeta)>,
    seg: Seq<char>,
) -> bool {
    match lookup(pkmap, seg) {
        Some(pk) => has_key(jcols, fk_col_of(seg, pk@)),
        None => true,
    }
}

/// Read the two peer-table names out of a junction table's name: strip the
/// prefix and splitter, cut the rest at each splitter, and demand exactly
/// two segments; each segment with a known primary key must have its
/// foreign-key column present in the junction table.
fn get_peer_names(
    pk_name_map: &Vec<(String, String)>,
    table_name: &str,
    peer_prefix: &str,
    peer_splitter: &str,
    columns: &Vec<(String, ColumnMeta)>,
) -> (r: Result<(String, String), StoreError>)
    requires
        peer_splitter@.len() > 0,
        has_prefix(table_name@, peer_prefix@ + peer_splitter@),
    ensures
        ({
            let segs = junction_segs(table_name@, peer_prefix@, peer_splitter@);
            match r {
                Ok(p) => segs.len() == 2 && p.0@ == segs[0] && p.1@ == segs[1] && pk_fk_ok(
                    pk_name_map@,
                    columns@,
                    segs[0],
                ) && pk_fk_ok(pk_name_map@, columns@, segs[1]),
                Err(e) => !(segs.len() == 2 && pk_fk_ok(pk_name_map@, columns@, segs[0])
                    && pk_fk_ok(pk_name_map@, columns@, segs[1])) && (match e {
                    StoreError::BadPeerTableName { table } => table@ == table_name@ && segs.len()
                        != 2,
                    StoreError::MissingFkColumn { junction, column } => junction@ == table_name@
                        && segs.len() == 2 && (exists|x: int|
                        0 <= x < 2 && ((#[trigger] lookup(pk_name_map@, segs[x])) matches Some(pk)
                            && column@ == fk_col_of(segs[x], pk@) && !has_key(columns@, column@))),
                    _ => false,
                }),
            }
        }),
{
    let mut full = peer_prefix.to_owned();
    full.append(peer_splitter);
    let plen = full.unicode_len();
    let n = table_name.unicode_len();
    let rest = table_name.substring_char(plen, n);
    proof {
        assert(table_name@.subrange(plen as int, n as int) =~= table_name@.skip(plen as int));
    }
    let parts = crate::strutil::split_on(rest, peer_splitter);
    let ghost segs = junction_segs(table_name@, peer_prefix@, peer_splitter@);
    proof {
        assert(views_of_strs(parts@) =~~= segs);
    }
    if parts.len() != 2 {
        return Err(StoreError::BadPeerTableName { table: table_name.to_owned() });
    }
    proof {
        assert(parts@[0]@ == segs[0]);
        assert(parts@[1]@ == segs[1]);
    }
    let mut idx: usize = 0;
    while idx < 2
        invariant
            0 <= idx <= 2,
            parts@.len() == 2,
            segs == junction_segs(table_name@, peer_prefix@, peer_splitter@),
            segs.len() == 2,
            parts@[0]@ == segs[0],
            parts@[1]@ == segs[1],
            forall|j: int| 0 <= j < idx ==> pk_fk_ok(pk_name_map@, columns@, segs[j]),
        decreases 2 - idx,
    {
        let p_name = &parts[idx];
        match assoc_get(pk_name_map, p_name.as_str()) {
            Some(pk) => {
                let mut fkn = p_name.clone();
                fkn.append("_");
                fkn.append(pk.as_str());
                proof {
                    assert(fkn@ == fk_col_of(parts@[idx as int]@, pk@));
                }
                if !assoc_has(columns, fkn.as_str()) {
                    proof {
                        assert(parts@[idx as int]@ == segs[idx as int]);
                        assert(lookup(pk_name_map@, segs[idx as int]) matches Some(v) && v@
                            == pk@);
                        assert(!has_key(columns@, fk_col_of(segs[idx as int], pk@)));
                        assert(!pk_fk_ok(pk_name_map@, columns@, segs[idx as int]));
                        assert(fkn@ == fk_col_of(segs[idx as int], pk@));
                    }
                    return Err(
                        StoreError::MissingFkColumn {
                            junction: table_name.to_owned(),
                            column: fkn,
                        },
                    );
                }
            },
            None => {},
        }
        idx = idx + 1;
    }
    let p1 = parts[0].clone();
    let p2 = parts[1].clone();
    Ok((p1, p2))
}

/// The pairs named by the junction tables before position `upto`.
pub open spec fn peer_edge_upto(
    tables: Seq<TableMeta>,
    prefix: Seq<char>,
    splitter: Seq<char>,
    upto: int,
    a: Seq<char>,
    b: Seq<char>,
) -> bool {
    exists|i: int| i < upto && peer_pair_at(tables, prefix, splitter, i, a, b)
}

/// As [`link_table_for`], over the junction tables before position `upto`.
pub open spec fn link_table_upto(
    tables: Seq<TableMeta>,
    prefix: Seq<char>,
    splitter: Seq<char>,
    upto: int,
    t: Seq<char>,
    j: Seq<char>,
) -> bool {
    exists|i: int|
        0 <= i < upto && (#[trigger] tables[i]).0@ == j && junction_name(j, prefix, splitter)
            && {
            let segs = junction_segs(j, prefix, splitter);
            segs.len() == 2 && (segs[0] == t || segs[1] == t)
        }
}

/// The parent edges contributed by the entity tables before position
/// `upto`.
pub open spec fn parent_edge_upto(
    tables: Seq<TableMeta>,
    prefix: Seq<char>,
    splitter: Seq<char>,
    upto: int,
    c: Seq<char>,
    p: Seq<char>,
) -> bool {
    exists|i: int, x: int| i < upto && parent_edge_at(tables, prefix, splitter, c, p, i, x)
}

/// The owner named by the foreign-key candidate map.
pub open spec fn owner_model(m: Seq<(String, (String, DbType))>, col: Seq<char>) -> Option<
    (Seq<char>, DbType),
> {
    match lookup(m, col) {
        Some(v) => Some((v.0@, v.1)),
        None => None,
    }
}

/// The junction-side foreign-key check reads the same through the
/// primary-key name map as through the tables themselves.
proof fn lemma_pk_fk_bridge(
    pk_names: Seq<(String, String)>,
    tables: Seq<TableMeta>,
    jcols: Seq<(String, ColumnMeta)>,
    seg: Seq<char>,
)
    requires
        keys_distinct(tables),
        pk_names.len() == tables.len(),
        forall|j: int|
            0 <= j < tables.len() ==> (#[trigger] pk_names[j]).0@ == tables[j].0@
                && pk_names[j].1@ == first_pk(tables[j].1@),
    ensures
        pk_fk_ok(pk_names, jcols, seg) == seg_fk_ok(tables, jcols, seg),
        has_key(pk_names, seg) == has_key(tables, seg),
        lookup(pk_names, seg) matches Some(pk) ==> (lookup(tables, seg) matches Some(cols) && pk@
            == first_pk(cols@)),
{
    lemma_lookup_exists(pk_names, seg);
    lemma_lookup_exists(tables, seg);
    assert(keys_distinct(pk_names));
    if has_key(tables, seg) {
        let j = choose|j: int| 0 <= j < tables.len() && (#[trigger] tables[j]).0@ == seg;
        assert(pk_names[j].0@ == seg);
        lemma_lookup_index(pk_names, j);
        lemma_lookup_index(tables, j);
    } else {
        if has_key(pk_names, seg) {
            let j = choose|j: int| 0 <= j < pk_names.len() && (#[trigger] pk_names[j]).0@ == seg;
            assert(tables[j].0@ == seg);
        }
    }
}

/// What a resolution error says of its cause, over the input metadata: a
/// junction candidate whose name does not split into exactly two peer
/// segments; a junction lacking the named foreign-key column of one of its
/// peers; a junction naming a table that does not exist; or a foreign-key
/// column whose type contradicts the named parent's primary key.
pub open spec fn resolve_err_cause(
    tables: Seq<TableMeta>,
    prefix: Seq<char>,
    splitter: Seq<char>,
    e: StoreError,
) -> bool {
    match e {
        StoreError::BadPeerTableName { table } => exists|i: int|
            0 <= i < tables.len() && (#[trigger] tables[i]).0@ == table@ && junction_name(
                table@,
                prefix,
                splitter,
            ) && junction_segs(table@, prefix, splitter).len() != 2,
        StoreError::MissingFkColumn { junction, column } => exists|i: int|
            0 <= i < tables.len() && (#[trigger] tables[i]).0@ == junction@ && junction_name(
                junction@,
                prefix,
                splitter,
            ) && {
                let segs = junction_segs(junction@, prefix, splitter);
                segs.len() == 2 && (exists|x: int|
                    0 <= x < 2 && ((#[trigger] lookup(tables, segs[x])) matches Some(cols)
                        && column@ == fk_col_of(segs[x], first_pk(cols@)) && !has_key(
                        tables[i].1@,
                        column@,
                    )))
            },
        StoreError::MissingPeerTable { table, junction } => exists|i: int|
            0 <= i < tables.len() && (#[trigger] tables[i]).0@ == junction@ && junction_name(
                junction@,
                prefix,
                splitter,
            ) && {
                let segs = junction_segs(junction@, prefix, splitter);
                segs.len() == 2 && (segs[0] == table@ || segs[1] == table@) && !has_key(
                    tables,
                    table@,
                )
            },
        StoreError::FkTypeMismatch { child, parent, column, expected, actual } => exists|
            i: int,
            x: int,
        |
            #![trigger tables[i].1@[x]]
            0 <= i < tables.len() && tables[i].0@ == child@ && !junction_name(
                child@,
                prefix,
                splitter,
            ) && 0 <= x < tables[i].1@.len() && tables[i].1@[x].0@ == column@ && (fk_owner(
                tables,
                prefix,
                splitter,
                column@,
            ) matches Some(o) && o.0 == parent@ && o.1 == expected) && tables[i].1@[x].1.col_type
                == actual && actual != expected,
        _ => false,
    }
}

/// Everything the resolver promises of a family it hands back: structural
/// soundness, one faithful schema per table, and the peer, parent and child
/// relations holding exactly the edges the naming conventions define.
pub open spec fn family_resolved(
    f: SchemaFamily,
    tables: Seq<TableMeta>,
    prefix: Seq<char>,
    splitter: Seq<char>,
) -> bool {
    &&& f.wf()
    &&& forall|t: Seq<char>| #[trigger] has_key(f.map@, t) <==> has_key(tables, t)
    &&& forall|t: Seq<char>|
        (#[trigger] lookup(tables, t)) matches Some(cols) ==> (lookup(f.map@, t) matches Some(s)
            && schema_from_meta(s, t, cols@, conv_fk_names(tables, prefix, splitter)))
    &&& forall|a: Seq<char>, b: Seq<char>|
        #[trigger] rel_has(f.peers@, a, b) <==> peer_edge(tables, prefix, splitter, a, b)
    &&& forall|c: Seq<char>, p: Seq<char>|
        #[trigger] rel_has(f.parents@, c, p) <==> parent_edge(tables, prefix, splitter, c, p)
    &&& forall|c: Seq<char>, p: Seq<char>|
        #[trigger] rel_has(f.children@, p, c) <==> parent_edge(tables, prefix, splitter, c, p)
    &&& forall|t: Seq<char>|
        (#[trigger] lookup(f.peer_link_tables@, t)) matches Some(j) ==> link_table_for(
            tables,
            prefix,
            splitter,
            t,
            j@,
        )
    &&& forall|t: Seq<char>|
        #[trigger] has_key(f.peer_link_tables@, t) <==> exists|b: Seq<char>|
            peer_edge(tables, prefix, splitter, t, b)
}

/// Resolve the schema family out of every table's column metadata: build
/// each table's schema, partition the tables into junction candidates and
/// entity tables by the peer-prefix convention, register the peers that the
/// junction tables name and the parent/child edges that foreign-key column
/// names define, and refuse malformed junction names, references to missing
/// tables or columns, and foreign keys whose type contradicts the
/// referenced primary key.
#[verifier::loop_isolation(false)]
#[verifier::rlimit(100)]
pub fn resolve_schema_family(
    tables: &Vec<(String, Vec<(String, ColumnMeta)>)>,
    peer_prefix: &str,
    peer_splitter: &str,
) -> (r: Result<SchemaFamily, StoreError>)
    requires
        keys_distinct(tables@),
        forall|i: int| 0 <= i < tables@.len() ==> keys_distinct((#[trigger] tables@[i]).1@),
        peer_splitter@.len() > 0,
    ensures
        r is Ok <==> resolvable(tables@, peer_prefix@, peer_splitter@),
        r matches Ok(f) ==> family_resolved(f, tables@, peer_prefix@, peer_splitter@),
        r matches Err(e) ==> resolve_err_cause(tables@, peer_prefix@, peer_splitter@, e),
{
    let n = tables.len();
    let mut full_prefix = peer_prefix.to_owned();
    full_prefix.append(peer_splitter);
    let ghost gprefix = peer_prefix@;
    let ghost gsplit = peer_splitter@;

    let mut fk_names: Vec<String> = Vec::new();
    let mut i: usize = 0;
    proof {
        assert(views_of_strs(fk_names@) =~~= conv_fk_names(tables@.take(0), gprefix, gsplit));
    }
    while i < n
        invariant
            0 <= i <= n,
            views_of_strs(fk_names@) == conv_fk_names(tables@.take(i as int), gprefix, gsplit),
        decreases n - i,
    {
        let tname = &tables[i].0;
        let is_junction = starts_with_str(tname.as_str(), full_prefix.as_str());
        proof {
            assert(junction_name(tables@[i as int].0@, gprefix, gsplit) == is_junction);
            lemma_conv_fk_names_push(
                tables@.take(i as int),
                gprefix,
                gsplit,
                tables@[i as int],
            );
            assert(tables@.take(i as int).push(tables@[i as int]) =~= tables@.take(i + 1));
        }
        if !is_junction {
            let pk = first_pk_col(&tables[i].1);
            let mut fkn = tname.clone();
            fkn.append("_");
            fkn.append(pk.as_str());
            let ghost old_names = fk_names@;
            fk_names.push(fkn);
            proof {
                assert(fk_names@[fk_names@.len() - 1]@ == meta_fk_name(tables@[i as int]));
                assert(views_of_strs(fk_names@) =~~= views_of_strs(old_names) + seq![
                    meta_fk_name(tables@[i as int]),
                ]);
            }
        } else {
            proof {
                assert(conv_fk_names(tables@.take(i + 1), gprefix, gsplit) =~~= views_of_strs(
                    fk_names@,
                ));
            }
        }
        i = i + 1;
    }
    let ghost gfks = views_of_strs(fk_names@);
    proof {
        assert(tables@.take(n as int) =~= tables@);
        assert(gfks == conv_fk_names(tables@, gprefix, gsplit));
    }

    let mut map: Vec<(String, Schema)> = Vec::new();
    let mut pk_names: Vec<(String, String)> = Vec::new();
    let mut possible_fks: Vec<(String, (String, DbType))> = Vec::new();
    i = 0;
    while i < n
        invariant
            0 <= i <= n,
            map@.len() == i,
            pk_names@.len() == i,
            forall|j: int|
                0 <= j < i ==> (#[trigger] map@[j]).0@ == tables@[j].0@ && schema_from_meta(
                    map@[j].1,
                    tables@[j].0@,
                    tables@[j].1@,
                    gfks,
                ),
            forall|j: int|
                0 <= j < i ==> (#[trigger] pk_names@[j]).0@ == tables@[j].0@ && pk_names@[j].1@
                    == first_pk(tables@[j].1@),
            forall|col: Seq<char>|
                #[trigger] owner_model(possible_fks@, col) == fk_owner(
                    tables@.take(i as int),
                    gprefix,
                    gsplit,
                    col,
                ),
        decreases n - i,
    {
        let ghost prefix_tables = tables@.take(i as int);
        let tname = &tables[i].0;
        let schema = match column_meta_items_to_schema(tname.as_str(), &tables[i].1, &fk_names) {
            Ok(s) => s,
            Err(e) => {
                proof {
                    assert(false);
                }
                return Err(e);
            },
        };
        let is_junction = starts_with_str(tname.as_str(), full_prefix.as_str());
        proof {
            assert(junction_name(tables@[i as int].0@, gprefix, gsplit) == is_junction);
        }
        if !is_junction {
            let mut fkn = tname.clone();
            fkn.append("_");
            fkn.append(schema.pk.as_str());
            let ptype = match assoc_get(&schema.types, schema.pk.as_str()) {
                Some(t) => *t,
                None => DbType::Null,
            };
            let ghost old_fks = possible_fks@;
            possible_fks.push((fkn, (tname.clone(), ptype)));
            proof {
                let t = tables@[i as int];
                assert(possible_fks@[possible_fks@.len() - 1].0@ == meta_fk_name(t)) by {
                    assert(schema.pk@ == first_pk(t.1@));
                }
                assert(ptype == meta_pk_type(t)) by {
                    if lookup(t.1@, first_pk(t.1@)) is Some {
                        assert(lookup(schema.types@, schema.pk@) == Some(
                            lookup(t.1@, first_pk(t.1@)).unwrap().col_type,
                        ));
                    } else {
                        assert(!has_key(t.1@, schema.pk@));
                        assert(!has_key(schema.types@, schema.pk@));
                    }
                }
                assert forall|col: Seq<char>| true implies (#[trigger] owner_model(
                    possible_fks@,
                    col,
                ) == fk_owner(tables@.take(i + 1), gprefix, gsplit, col)) by {
                    assert(owner_model(old_fks, col) == fk_owner(
                        prefix_tables,
                        gprefix,
                        gsplit,
                        col,
                    ));
                    crate::assoc::lemma_lookup_push(
                        old_fks,
                        possible_fks@[possible_fks@.len() - 1],
                        col,
                    );
                    lemma_fk_owner_push(prefix_tables, gprefix, gsplit, t, col);
                    assert(prefix_tables.push(t) =~= tables@.take(i + 1));
                }
            }
        } else {
            proof {
                let t = tables@[i as int];
                assert forall|col: Seq<char>| true implies (#[trigger] owner_model(
                    possible_fks@,
                    col,
                ) == fk_owner(tables@.take(i + 1), gprefix, gsplit, col)) by {
                    lemma_fk_owner_push(prefix_tables, gprefix, gsplit, t, col);
                    assert(prefix_tables.push(t) =~= tables@.take(i + 1));
                }
            }
        }
        pk_names.push((tname.clone(), schema.pk.clone()));
        map.push((tname.clone(), schema));
        i = i + 1;
    }
    proof {
        assert(tables@.take(n as int) =~= tables@);
        assert forall|col: Seq<char>| true implies (#[trigger] owner_model(possible_fks@, col)
            == fk_owner(tables@, gprefix, gsplit, col)) by {
            assert(owner_model(possible_fks@, col) == fk_owner(
                tables@.take(n as int),
                gprefix,
                gsplit,
                col,
            ));
        }
    }

    let mut peers: Vec<(String, Vec<String>)> = Vec::new();
    let mut peer_links: Vec<(String, String)> = Vec::new();
    i = 0;
    while i < n
        invariant
            0 <= i <= n,
            keys_distinct(peers@),
            keys_distinct(peer_links@),
            forall|a: Seq<char>, b: Seq<char>|
                #[trigger] rel_has(peers@, a, b) <==> peer_edge_upto(
                    tables@,
                    gprefix,
                    gsplit,
                    i as int,
                    a,
                    b,
                ),
            forall|t: Seq<char>|
                (#[trigger] lookup(peer_links@, t)) matches Some(j) ==> link_table_upto(
                    tables@,
                    gprefix,
                    gsplit,
                    i as int,
                    t,
                    j@,
                ),
            forall|t: Seq<char>|
                #[trigger] has_key(peer_links@, t) <==> exists|b: Seq<char>|
                    #[trigger] peer_edge_upto(tables@, gprefix, gsplit, i as int, t, b),
            forall|x: int|
                0 <= x < i && junction_name((#[trigger] tables@[x]).0@, gprefix, gsplit)
                    ==> junction_valid(tables@, gprefix, gsplit, x),
        decreases n - i,
    {
        let tname = &tables[i].0;
        let is_junction = starts_with_str(tname.as_str(), full_prefix.as_str());
        proof {
            assert(junction_name(tables@[i as int].0@, gprefix, gsplit) == is_junction);
        }
        if is_junction {
            let ghost segs = junction_segs(tables@[i as int].0@, gprefix, gsplit);
            let pair = match get_peer_names(
                &pk_names,
                tname.as_str(),
                peer_prefix,
                peer_splitter,
                &tables[i].1,
            ) {
                Ok(p) => p,
                Err(e) => {
                    proof {
                        if segs.len() == 2 {
                            lemma_pk_fk_bridge(pk_names@, tables@, tables@[i as int].1@, segs[0]);
                            lemma_pk_fk_bridge(pk_names@, tables@, tables@[i as int].1@, segs[1]);
                        }
                        assert(!junction_valid(tables@, gprefix, gsplit, i as int));
                        assert(!resolvable(tables@, gprefix, gsplit));
                    }
                    return Err(e);
                },
            };
            proof {
                lemma_pk_fk_bridge(pk_names@, tables@, tables@[i as int].1@, segs[0]);
                lemma_pk_fk_bridge(pk_names@, tables@, tables@[i as int].1@, segs[1]);
            }
            if !assoc_has(&map, pair.0.as_str()) {
                proof {
                    lemma_has_key_pointwise(map@, tables@, pair.0@);
                    assert(!junction_valid(tables@, gprefix, gsplit, i as int));
                    assert(!resolvable(tables@, gprefix, gsplit));
                }
                return Err(
                    StoreError::MissingPeerTable { table: pair.0, junction: tname.clone() },
                );
            }
            if !assoc_has(&map, pair.1.as_str()) {
                proof {
                    lemma_has_key_pointwise(map@, tables@, pair.1@);
                    assert(!junction_valid(tables@, gprefix, gsplit, i as int));
                    assert(!resolvable(tables@, gprefix, gsplit));
                }
                return Err(
                    StoreError::MissingPeerTable { table: pair.1, junction: tname.clone() },
                );
            }
            proof {
                lemma_has_key_pointwise(map@, tables@, pair.0@);
                lemma_has_key_pointwise(map@, tables@, pair.1@);
                assert(junction_valid(tables@, gprefix, gsplit, i as int));
            }
            let ghost old_peers = peers@;
            add_link(&mut peers, pair.0.as_str(), pair.1.as_str());
            add_link(&mut peers, pair.1.as_str(), pair.0.as_str());
            set_name(&mut peer_links, pair.0.as_str(), tname.as_str());
            set_name(&mut peer_links, pair.1.as_str(), tname.as_str());
            proof {
                assert forall|a: Seq<char>, b: Seq<char>| true implies (#[trigger] rel_has(
                    peers@,
                    a,
                    b,
                ) <==> peer_edge_upto(tables@, gprefix, gsplit, i + 1, a, b)) by {
                    assert(rel_has(peers@, a, b) <==> rel_has(old_peers, a, b) || (a == pair.0@
                        && b == pair.1@) || (a == pair.1@ && b == pair.0@));
                    if rel_has(peers@, a, b) {
                        if rel_has(old_peers, a, b) {
                            let x = choose|x: int|
                                x < i && peer_pair_at(tables@, gprefix, gsplit, x, a, b);
                            assert(peer_pair_at(tables@, gprefix, gsplit, x, a, b));
                        } else {
                            assert(peer_pair_at(tables@, gprefix, gsplit, i as int, a, b));
                        }
                    }
                    if peer_edge_upto(tables@, gprefix, gsplit, i + 1, a, b) {
                        let x = choose|x: int|
                            x < i + 1 && peer_pair_at(tables@, gprefix, gsplit, x, a, b);
                        if x < i {
                            assert(peer_edge_upto(tables@, gprefix, gsplit, i as int, a, b));
                        } else {
                            assert((a == pair.0@ && b == pair.1@) || (a == pair.1@ && b
                                == pair.0@));
                        }
                    }
                }
                assert forall|t: Seq<char>| true implies ((#[trigger] lookup(
                    peer_links@,
                    t,
                )) matches Some(j) ==> link_table_upto(
                    tables@,
                    gprefix,
                    gsplit,
                    i + 1,
                    t,
                    j@,
                )) by {
                    if lookup(peer_links@, t) is Some {
                        if t == pair.0@ || t == pair.1@ {
                            assert(lookup(peer_links@, t).unwrap()@ == tname@);
                            assert(tables@[i as int].0@ == tname@);
                        } else {
                            if lookup(peer_links@, t) is Some {
                                let x = choose|x: int|
                                    0 <= x < i && (#[trigger] tables@[x]).0@ == lookup(
                                        peer_links@,
                                        t,
                                    ).unwrap()@ && junction_name(tables@[x].0@, gprefix, gsplit)
                                        && {
                                        let segs2 = junction_segs(
                                            tables@[x].0@,
                                            gprefix,
                                            gsplit,
                                        );
                                        segs2.len() == 2 && (segs2[0] == t || segs2[1] == t)
                                    };
                                assert(link_table_upto(tables@, gprefix, gsplit, i + 1, t, lookup(
                                    peer_links@,
                                    t,
                                ).unwrap()@));
                            }
                        }
                    }
                }
                assert forall|t: Seq<char>| true implies (#[trigger] has_key(peer_links@, t)
                    <==> exists|b: Seq<char>|
                    #[trigger] peer_edge_upto(tables@, gprefix, gsplit, i + 1, t, b)) by {
                    if has_key(peer_links@, t) {
                        if t == pair.0@ {
                            assert(peer_pair_at(tables@, gprefix, gsplit, i as int, t, pair.1@));
                            assert(peer_edge_upto(tables@, gprefix, gsplit, i + 1, t, pair.1@));
                        } else if t == pair.1@ {
                            assert(peer_pair_at(tables@, gprefix, gsplit, i as int, t, pair.0@));
                            assert(peer_edge_upto(tables@, gprefix, gsplit, i + 1, t, pair.0@));
                        } else {
                            let b = choose|b: Seq<char>|
                                #[trigger] peer_edge_upto(tables@, gprefix, gsplit, i as int, t, b);
                            assert(peer_edge_upto(tables@, gprefix, gsplit, i + 1, t, b));
                        }
                    }
                    if exists|b: Seq<char>| #[trigger] peer_edge_upto(tables@, gprefix, gsplit, i + 1, t, b) {
                        let b = choose|b: Seq<char>|
                            #[trigger] peer_edge_upto(tables@, gprefix, gsplit, i + 1, t, b);
                        let x = choose|x: int|
                            x < i + 1 && peer_pair_at(tables@, gprefix, gsplit, x, t, b);
                        if x < i {
                            assert(peer_edge_upto(tables@, gprefix, gsplit, i as int, t, b));
                        } else {
                            assert(t == pair.0@ || t == pair.1@);
                        }
                    }
                }
            }
        } else {
            proof {
                assert forall|a: Seq<char>, b: Seq<char>| true implies (#[trigger] rel_has(
                    peers@,
                    a,
                    b,
                ) <==> peer_edge_upto(tables@, gprefix, gsplit, i + 1, a, b)) by {
                    if peer_edge_upto(tables@, gprefix, gsplit, i + 1, a, b) {
                        let x = choose|x: int|
                            x < i + 1 && peer_pair_at(tables@, gprefix, gsplit, x, a, b);
                        assert(x < i);
                        assert(peer_edge_upto(tables@, gprefix, gsplit, i as int, a, b));
                    }
                    if rel_has(peers@, a, b) {
                        let x = choose|x: int|
                            x < i && peer_pair_at(tables@, gprefix, gsplit, x, a, b);
                        assert(peer_pair_at(tables@, gprefix, gsplit, x, a, b));
                    }
                }
                assert forall|t: Seq<char>| true implies (#[trigger] has_key(peer_links@, t)
                    <==> exists|b: Seq<char>|
                    #[trigger] peer_edge_upto(tables@, gprefix, gsplit, i + 1, t, b)) by {
                    if has_key(peer_links@, t) {
                        let b = choose|b: Seq<char>|
                            #[trigger] peer_edge_upto(tables@, gprefix, gsplit, i as int, t, b);
                        assert(peer_edge_upto(tables@, gprefix, gsplit, i + 1, t, b));
                    }
                    if exists|b: Seq<char>| #[trigger] peer_edge_upto(tables@, gprefix, gsplit, i + 1, t, b) {
                        let b = choose|b: Seq<char>|
                            #[trigger] peer_edge_upto(tables@, gprefix, gsplit, i + 1, t, b);
                        let x = choose|x: int|
                            x < i + 1 && peer_pair_at(tables@, gprefix, gsplit, x, t, b);
                        assert(x < i);
                        assert(peer_edge_upto(tables@, gprefix, gsplit, i as int, t, b));
                    }
                }
                assert forall|t: Seq<char>| true implies ((#[trigger] lookup(
                    peer_links@,
                    t,
                )) matches Some(j) ==> link_table_upto(
                    tables@,
                    gprefix,
                    gsplit,
                    i + 1,
                    t,
                    j@,
                )) by {
                    if lookup(peer_links@, t) is Some {
                        let j = lookup(peer_links@, t).unwrap();
                        let x = choose|x: int|
                            0 <= x < i && (#[trigger] tables@[x]).0@ == j@ && junction_name(
                                j@,
                                gprefix,
                                gsplit,
                            ) && {
                                let segs2 = junction_segs(j@, gprefix, gsplit);
                                segs2.len() == 2 && (segs2[0] == t || segs2[1] == t)
                            };
                        assert(link_table_upto(tables@, gprefix, gsplit, i + 1, t, j@));
                    }
                }
            }
        }
        i = i + 1;
    }

    let mut parents: Vec<(String, Vec<String>)> = Vec::new();
    let mut children: Vec<(String, Vec<String>)> = Vec::new();
    i = 0;
    while i < n
        invariant
            0 <= i <= n,
            keys_distinct(parents@),
            keys_distinct(children@),
            forall|c: Seq<char>, p: Seq<char>|
                #[trigger] rel_has(parents@, c, p) <==> parent_edge_upto(
                    tables@,
                    gprefix,
                    gsplit,
                    i as int,
                    c,
                    p,
                ),
            forall|c: Seq<char>, p: Seq<char>|
                #[trigger] rel_has(children@, p, c) <==> parent_edge_upto(
                    tables@,
                    gprefix,
                    gsplit,
                    i as int,
                    c,
                    p,
                ),
            forall|x: int, y: int|
                #![trigger tables@[x].1@[y]]
                0 <= x < i && !junction_name(tables@[x].0@, gprefix, gsplit) && 0 <= y
                    < tables@[x].1@.len() ==> !(fk_owner(
                    tables@,
                    gprefix,
                    gsplit,
                    tables@[x].1@[y].0@,
                ) matches Some(o) && tables@[x].1@[y].1.col_type != o.1),
        decreases n - i,
    {
        let tname = &tables[i].0;
        let is_junction = starts_with_str(tname.as_str(), full_prefix.as_str());
        proof {
            assert(junction_name(tables@[i as int].0@, gprefix, gsplit) == is_junction);
        }
        if !is_junction {
            let cols = &tables[i].1;
            let m = cols.len();
            let mut x: usize = 0;
            while x < m
                invariant
                    0 <= x <= m,
                    keys_distinct(parents@),
                    keys_distinct(children@),
                    forall|c: Seq<char>, p: Seq<char>|
                        #[trigger] rel_has(parents@, c, p) <==> parent_edge_upto(
                            tables@,
                            gprefix,
                            gsplit,
                            i as int,
                            c,
                            p,
                        ) || (exists|y: int|
                            0 <= y < x && parent_edge_at(
                                tables@,
                                gprefix,
                                gsplit,
                                c,
                                p,
                                i as int,
                                y,
                            )),
                    forall|c: Seq<char>, p: Seq<char>|
                        #[trigger] rel_has(children@, p, c) <==> parent_edge_upto(
                            tables@,
                            gprefix,
                            gsplit,
                            i as int,
                            c,
                            p,
                        ) || (exists|y: int|
                            0 <= y < x && parent_edge_at(
                                tables@,
                                gprefix,
                                gsplit,
                                c,
                                p,
                                i as int,
                                y,
                            )),
                    forall|y: int|
                        0 <= y < x ==> !(fk_owner(
                            tables@,
                            gprefix,
                            gsplit,
                            (#[trigger] tables@[i as int].1@[y]).0@,
                        ) matches Some(o) && tables@[i as int].1@[y].1.col_type != o.1),
                decreases m - x,
            {
                let col = &cols[x];
                let ghost colv = tables@[i as int].1@[x as int].0@;
                match assoc_get(&possible_fks, col.0.as_str()) {
                    Some(owner) => {
                        let ptype = owner.1;
                        proof {
                            assert(col.0@ == colv);
                            assert(owner_model(possible_fks@, colv) == Some((owner.0@, owner.1)));
                            assert(fk_owner(tables@, gprefix, gsplit, colv) == Some(
                                (owner.0@, owner.1),
                            ));
                        }
                        if col.1.col_type != ptype {
                            proof {
                                assert(fk_owner(tables@, gprefix, gsplit, tables@[i as int].1@[x as int].0@)
                                    matches Some(o) && tables@[i as int].1@[x as int].1.col_type
                                    != o.1);
                                assert(fk_mismatch(tables@, gprefix, gsplit));
                            }
                            return Err(
                                StoreError::FkTypeMismatch {
                                    child: tname.clone(),
                                    parent: owner.0.clone(),
                                    column: col.0.clone(),
                                    expected: ptype,
                                    actual: col.1.col_type,
                                },
                            );
                        }
                        let ghost old_parents = parents@;
                        let ghost old_children = children@;
                        add_link(&mut parents, tname.as_str(), owner.0.as_str());
                        add_link(&mut children, owner.0.as_str(), tname.as_str());
                        proof {
                            let newc = tname@;
                            let newp = owner.0@;
                            assert(parent_edge_at(
                                tables@,
                                gprefix,
                                gsplit,
                                newc,
                                newp,
                                i as int,
                                x as int,
                            ));
                            assert forall|c: Seq<char>, p: Seq<char>| true implies (
                            #[trigger] rel_has(parents@, c, p) <==> parent_edge_upto(
                                tables@,
                                gprefix,
                                gsplit,
                                i as int,
                                c,
                                p,
                            ) || (exists|y: int|
                                0 <= y < x + 1 && parent_edge_at(
                                    tables@,
                                    gprefix,
                                    gsplit,
                                    c,
                                    p,
                                    i as int,
                                    y,
                                ))) by {
                                if rel_has(parents@, c, p) && !rel_has(old_parents, c, p) {
                                    assert(c == newc && p == newp);
                                    assert(parent_edge_at(
                                        tables@,
                                        gprefix,
                                        gsplit,
                                        c,
                                        p,
                                        i as int,
                                        x as int,
                                    ));
                                }
                                if exists|y: int|
                                    0 <= y < x + 1 && parent_edge_at(
                                        tables@,
                                        gprefix,
                                        gsplit,
                                        c,
                                        p,
                                        i as int,
                                        y,
                                    ) {
                                    let y = choose|y: int|
                                        0 <= y < x + 1 && parent_edge_at(
                                            tables@,
                                            gprefix,
                                            gsplit,
                                            c,
                                            p,
                                            i as int,
                                            y,
                                        );
                                    if y == x {
                                        assert(c == newc && p == newp) by {
                                            assert(tables@[i as int].1@[x as int].0@ == col.0@);
                                        }
                                    }
                                }
                            }
                            assert forall|c: Seq<char>, p: Seq<char>| true implies (
                            #[trigger] rel_has(children@, p, c) <==> parent_edge_upto(
                                tables@,
                                gprefix,
                                gsplit,
                                i as int,
                                c,
                                p,
                            ) || (exists|y: int|
                                0 <= y < x + 1 && parent_edge_at(
                                    tables@,
                                    gprefix,
                                    gsplit,
                                    c,
                                    p,
                                    i as int,
                                    y,
                                ))) by {
                                if rel_has(children@, p, c) && !rel_has(old_children, p, c) {
                                    assert(c == newc && p == newp);
                                    assert(parent_edge_at(
                                        tables@,
                                        gprefix,
                                        gsplit,
                                        c,
                                        p,
                                        i as int,
                                        x as int,
                                    ));
                                }
                                if exists|y: int|
                                    0 <= y < x + 1 && parent_edge_at(
                                        tables@,
                                        gprefix,
                                        gsplit,
                                        c,
                                        p,
                                        i as int,
                                        y,
                                    ) {
                                    let y = choose|y: int|
                                        0 <= y < x + 1 && parent_edge_at(
                                            tables@,
                                            gprefix,
                                            gsplit,
                                            c,
                                            p,
                                            i as int,
                                            y,
                                        );
                                    if y == x {
                                        assert(c == newc && p == newp) by {
                                            assert(tables@[i as int].1@[x as int].0@ == col.0@);
                                        }
                                    }
                                }
                            }
                        }
                    },
                    None => {
                        proof {
                            assert forall|c: Seq<char>, p: Seq<char>, y: int|
                                y == x implies !parent_edge_at(
                                tables@,
                                gprefix,
                                gsplit,
                                c,
                                p,
                                i as int,
                                y,
                            ) by {
                                assert(owner_model(possible_fks@, colv) is None);
                                assert(fk_owner(
                                    tables@,
                                    gprefix,
                                    gsplit,
                                    tables@[i as int].1@[x as int].0@,
                                ) is None);
                            }
                        }
                    },
                }
                x = x + 1;
            }
            proof {
                assert forall|c: Seq<char>, p: Seq<char>| true implies (#[trigger] rel_has(
                    parents@,
                    c,
                    p,
                ) <==> parent_edge_upto(tables@, gprefix, gsplit, i + 1, c, p)) by {
                    if parent_edge_upto(tables@, gprefix, gsplit, i + 1, c, p) {
                        let (x2, y2) = choose|x2: int, y2: int|
                            x2 < i + 1 && parent_edge_at(tables@, gprefix, gsplit, c, p, x2, y2);
                        if x2 < i {
                            assert(parent_edge_upto(tables@, gprefix, gsplit, i as int, c, p));
                        }
                    }
                    if rel_has(parents@, c, p) {
                        if parent_edge_upto(tables@, gprefix, gsplit, i as int, c, p) {
                            let (x2, y2) = choose|x2: int, y2: int|
                                x2 < i && parent_edge_at(tables@, gprefix, gsplit, c, p, x2, y2);
                            assert(parent_edge_at(tables@, gprefix, gsplit, c, p, x2, y2));
                        }
                    }
                }
                assert forall|c: Seq<char>, p: Seq<char>| true implies (#[trigger] rel_has(
                    children@,
                    p,
                    c,
                ) <==> parent_edge_upto(tables@, gprefix, gsplit, i + 1, c, p)) by {
                    if parent_edge_upto(tables@, gprefix, gsplit, i + 1, c, p) {
                        let (x2, y2) = choose|x2: int, y2: int|
                            x2 < i + 1 && parent_edge_at(tables@, gprefix, gsplit, c, p, x2, y2);
                        if x2 < i {
                            assert(parent_edge_upto(tables@, gprefix, gsplit, i as int, c, p));
                        }
                    }
                    if rel_has(children@, p, c) {
                        if parent_edge_upto(tables@, gprefix, gsplit, i as int, c, p) {
                            let (x2, y2) = choose|x2: int, y2: int|
                                x2 < i && parent_edge_at(tables@, gprefix, gsplit, c, p, x2, y2);
                            assert(parent_edge_at(tables@, gprefix, gsplit, c, p, x2, y2));
                        }
                    }
                }
            }
        } else {
            proof {
                assert forall|c: Seq<char>, p: Seq<char>| true implies (#[trigger] rel_has(
                    parents@,
                    c,
                    p,
                ) <==> parent_edge_upto(tables@, gprefix, gsplit, i + 1, c, p)) by {
                    if parent_edge_upto(tables@, gprefix, gsplit, i + 1, c, p) {
                        let (x2, y2) = choose|x2: int, y2: int|
                            x2 < i + 1 && parent_edge_at(tables@, gprefix, gsplit, c, p, x2, y2);
                        assert(x2 < i);
                        assert(parent_edge_upto(tables@, gprefix, gsplit, i as int, c, p));
                    }
                    if rel_has(parents@, c, p) {
                        let (x2, y2) = choose|x2: int, y2: int|
                            x2 < i && parent_edge_at(tables@, gprefix, gsplit, c, p, x2, y2);
                        assert(parent_edge_at(tables@, gprefix, gsplit, c, p, x2, y2));
                    }
                }
                assert forall|c: Seq<char>, p: Seq<char>| true implies (#[trigger] rel_has(
                    children@,
                    p,
                    c,
                ) <==> parent_edge_upto(tables@, gprefix, gsplit, i + 1, c, p)) by {
                    if parent_edge_upto(tables@, gprefix, gsplit, i + 1, c, p) {
                        let (x2, y2) = choose|x2: int, y2: int|
                            x2 < i + 1 && parent_edge_at(tables@, gprefix, gsplit, c, p, x2, y2);
                        assert(x2 < i);
                        assert(parent_edge_upto(tables@, gprefix, gsplit, i as int, c, p));
                    }
                    if rel_has(children@, p, c) {
                        let (x2, y2) = choose|x2: int, y2: int|
                            x2 < i && parent_edge_at(tables@, gprefix, gsplit, c, p, x2, y2);
                        assert(parent_edge_at(tables@, gprefix, gsplit, c, p, x2, y2));
                    }
                }
            }
        }
        i = i + 1;
    }

    let family = SchemaFamily { map, parents, children, peers, peer_link_tables: peer_links };
    proof {
        lemma_family_assembled(family, tables@, gprefix, gsplit);
        assert(resolvable(tables@, gprefix, gsplit)) by {
            assert forall|x: int|
                0 <= x < tables@.len() && junction_name(
                    (#[trigger] tables@[x]).0@,
                    gprefix,
                    gsplit,
                ) implies junction_valid(tables@, gprefix, gsplit, x) by {}
            assert(!fk_mismatch(tables@, gprefix, gsplit)) by {
                if fk_mismatch(tables@, gprefix, gsplit) {
                    let (x, y) = choose|x: int, y: int|
                        #![trigger tables@[x].1@[y]]
                        0 <= x < tables@.len() && !junction_name(tables@[x].0@, gprefix, gsplit)
                            && 0 <= y < tables@[x].1@.len() && (fk_owner(
                            tables@,
                            gprefix,
                            gsplit,
                            tables@[x].1@[y].0@,
                        ) matches Some(o) && tables@[x].1@[y].1.col_type != o.1);
                    assert(false);
                }
            }
        }
    }
    Ok(family)
}

/// The loop invariants of the resolver, taken together at the end, give
/// exactly the promises of `family_resolved`.
proof fn lemma_family_assembled(
    f: SchemaFamily,
    tables: Seq<TableMeta>,
    prefix: Seq<char>,
    splitter: Seq<char>,
)
    requires
        keys_distinct(tables),
        keys_distinct(f.map@),
        keys_distinct(f.parents@),
        keys_distinct(f.children@),
        keys_distinct(f.peers@),
        keys_distinct(f.peer_link_tables@),
        f.map@.len() == tables.len(),
        forall|j: int|
            0 <= j < tables.len() ==> (#[trigger] f.map@[j]).0@ == tables[j].0@
                && schema_from_meta(
                f.map@[j].1,
                tables[j].0@,
                tables[j].1@,
                conv_fk_names(tables, prefix, splitter),
            ),
        forall|a: Seq<char>, b: Seq<char>|
            #[trigger] rel_has(f.peers@, a, b) <==> peer_edge_upto(
                tables,
                prefix,
                splitter,
                tables.len() as int,
                a,
                b,
            ),
        forall|t: Seq<char>|
            (#[trigger] lookup(f.peer_link_tables@, t)) matches Some(j) ==> link_table_upto(
                tables,
                prefix,
                splitter,
                tables.len() as int,
                t,
                j@,
            ),
        forall|t: Seq<char>|
            #[trigger] has_key(f.peer_link_tables@, t) <==> exists|b: Seq<char>|
                peer_edge_upto(tables, prefix, splitter, tables.len() as int, t, b),
        forall|c: Seq<char>, p: Seq<char>|
            #[trigger] rel_has(f.parents@, c, p) <==> parent_edge_upto(
                tables,
                prefix,
                splitter,
                tables.len() as int,
                c,
                p,
            ),
        forall|c: Seq<char>, p: Seq<char>|
            #[trigger] rel_has(f.children@, p, c) <==> parent_edge_upto(
                tables,
                prefix,
                splitter,
                tables.len() as int,
                c,
                p,
            ),
    ensures
        family_resolved(f, tables, prefix, splitter),
{
    let n = tables.len() as int;
    assert forall|t: Seq<char>| true implies (#[trigger] has_key(f.map@, t) <==> has_key(
        tables,
        t,
    )) by {
        lemma_has_key_pointwise(f.map@, tables, t);
    }
    assert forall|t: Seq<char>| true implies ((#[trigger] lookup(f.map@, t)) matches Some(s)
        ==> s.wf() && s.name@ == t) by {
        lemma_lookup_exists(f.map@, t);
        if has_key(f.map@, t) {
            let j = choose|j: int| 0 <= j < f.map@.len() && (#[trigger] f.map@[j]).0@ == t;
            lemma_lookup_index(f.map@, j);
            assert(schema_from_meta(
                f.map@[j].1,
                tables[j].0@,
                tables[j].1@,
                conv_fk_names(tables, prefix, splitter),
            ));
        }
    }
    assert forall|t: Seq<char>| true implies ((#[trigger] lookup(tables, t)) matches Some(cols)
        ==> (lookup(f.map@, t) matches Some(s) && schema_from_meta(
        s,
        t,
        cols@,
        conv_fk_names(tables, prefix, splitter),
    ))) by {
        lemma_lookup_exists(tables, t);
        if has_key(tables, t) {
            let j = choose|j: int| 0 <= j < tables.len() && (#[trigger] tables[j]).0@ == t;
            lemma_lookup_index(tables, j);
            lemma_lookup_index(f.map@, j);
            assert(f.map@[j].0@ == t);
        }
    }
    assert forall|a: Seq<char>, b: Seq<char>| true implies (#[trigger] rel_has(f.peers@, a, b)
        <==> peer_edge(tables, prefix, splitter, a, b)) by {
        if peer_edge(tables, prefix, splitter, a, b) {
            let x = choose|x: int| peer_pair_at(tables, prefix, splitter, x, a, b);
            assert(peer_edge_upto(tables, prefix, splitter, n, a, b));
        }
        if peer_edge_upto(tables, prefix, splitter, n, a, b) {
            let x = choose|x: int| x < n && peer_pair_at(tables, prefix, splitter, x, a, b);
            assert(peer_edge(tables, prefix, splitter, a, b));
        }
    }
    assert forall|a: Seq<char>, b: Seq<char>| #[trigger] rel_has(f.peers@, a, b) implies rel_has(
        f.peers@,
        b,
        a,
    ) by {
        let x = choose|x: int| x < n && peer_pair_at(tables, prefix, splitter, x, a, b);
        assert(peer_pair_at(tables, prefix, splitter, x, b, a));
        assert(peer_edge_upto(tables, prefix, splitter, n, b, a));
    }
    assert forall|c: Seq<char>, p: Seq<char>| true implies (#[trigger] rel_has(f.parents@, c, p)
        <==> parent_edge(tables, prefix, splitter, c, p)) by {
        if parent_edge(tables, prefix, splitter, c, p) {
            let (x, y) = choose|x: int, y: int|
                parent_edge_at(tables, prefix, splitter, c, p, x, y);
            assert(x < n);
            assert(parent_edge_upto(tables, prefix, splitter, n, c, p));
        }
        if parent_edge_upto(tables, prefix, splitter, n, c, p) {
            let (x, y) = choose|x: int, y: int|
                x < n && parent_edge_at(tables, prefix, splitter, c, p, x, y);
            assert(parent_edge(tables, prefix, splitter, c, p));
        }
    }
    assert forall|c: Seq<char>, p: Seq<char>| true implies (#[trigger] rel_has(f.children@, p, c)
        <==> parent_edge(tables, prefix, splitter, c, p)) by {
        if parent_edge(tables, prefix, splitter, c, p) {
            let (x, y) = choose|x: int, y: int|
                parent_edge_at(tables, prefix, splitter, c, p, x, y);
            assert(x < n);
            assert(parent_edge_upto(tables, prefix, splitter, n, c, p));
        }
        if parent_edge_upto(tables, prefix, splitter, n, c, p) {
            let (x, y) = choose|x: int, y: int|
                x < n && parent_edge_at(tables, prefix, splitter, c, p, x, y);
            assert(parent_edge(tables, prefix, splitter, c, p));
        }
    }
    assert forall|t: Seq<char>| true implies ((#[trigger] lookup(
        f.peer_link_tables@,
        t,
    )) matches Some(j) ==> link_table_for(tables, prefix, splitter, t, j@)) by {
        if lookup(f.peer_link_tables@, t) is Some {
            let j = lookup(f.peer_link_tables@, t).unwrap();
            let x = choose|x: int|
                0 <= x < n && (#[trigger] tables[x]).0@ == j@ && junction_name(
                    j@,
                    prefix,
                    splitter,
                ) && {
                    let segs2 = junction_segs(j@, prefix, splitter);
                    segs2.len() == 2 && (segs2[0] == t || segs2[1] == t)
                };
            assert(link_table_for(tables, prefix, splitter, t, j@));
        }
    }
    assert forall|t: Seq<char>| true implies (#[trigger] has_key(f.peer_link_tables@, t) <==>
    exists|b: Seq<char>| #[trigger] peer_edge(tables, prefix, splitter, t, b)) by {
        if has_key(f.peer_link_tables@, t) {
            let b = choose|b: Seq<char>| #[trigger] peer_edge_upto(tables, prefix, splitter, n, t, b);
            let x = choose|x: int| x < n && peer_pair_at(tables, prefix, splitter, x, t, b);
            assert(peer_edge(tables, prefix, splitter, t, b));
        }
        if exists|b: Seq<char>| #[trigger] peer_edge(tables, prefix, splitter, t, b) {
            let b = choose|b: Seq<char>| #[trigger] peer_edge(tables, prefix, splitter, t, b);
            let x = choose|x: int| peer_pair_at(tables, prefix, splitter, x, t, b);
            assert(peer_edge_upto(tables, prefix, splitter, n, t, b));
        }
    }
}

/// The canonical normalization of a catalog default: empty-string literals
/// in their quoting forms become the canonical empty text, and an absent
/// (NULL) default becomes the zero or empty value of the declared type.
pub open spec fn normalize_default(t: DbType, d: crate::value::DbVal) -> crate::value::DbVal {
    let d1 = match d {
        crate::value::DbVal::Text(s) => if s.len() == 0 || s == "''"@ || s == "\"\""@ {
            crate::value::DbVal::Text(Seq::empty())
        } else {
            d
        },
        _ => d,
    };
    if d1 is Null {
        crate::schema::default_val_of(t)
    } else {
        d1
    }
}

/// Read the column metadata of one table from the database's catalog. Each
/// column's declared type must map to one of the four usable primitive
/// types; the default is normalized so that it is never the Null variant.
/// The catalog decides what comes back, so the contract holds of every
/// outcome.
#[verifier::loop_isolation(false)]
pub fn get_columns_meta(conn: &rusqlite::Connection, table: &str) -> (r: Result<
    Vec<(String, ColumnMeta)>,
    StoreError,
>)
    ensures
        r matches Ok(metas) ==> keys_distinct(metas@) && (forall|j: int|
            0 <= j < metas@.len() ==> {
                let m = (#[trigger] metas@[j]).1;
                &&& metas@[j].0@ == m.name@
                &&& m.col_type != DbType::Null
                &&& m.default@ != crate::value::DbVal::Null
            }),
        r matches Err(e) ==> (e is Db || (e matches StoreError::InvalidColumnType {
            table: t,
            column,
            declared,
        } && t@ == table@ && crate::schema::type_from_text(declared@) == DbType::Null)),
{
    let mut sql = String::new();
    sql.append("PRAGMA table_info(");
    sql.append(table);
    sql.append(");");
    let raws = match crate::db::db_table_info(conn, sql.as_str()) {
        Ok(rs) => rs,
        Err(msg) => {
            return Err(StoreError::Db { message: msg });
        },
    };
    let mut metas: Vec<(String, ColumnMeta)> = Vec::new();
    let nr = raws.len();
    let mut i: usize = 0;
    while i < nr
        invariant
            0 <= i <= nr,
            keys_distinct(metas@),
            forall|j: int|
                0 <= j < metas@.len() ==> {
                    let m = (#[trigger] metas@[j]).1;
                    &&& metas@[j].0@ == m.name@
                    &&& m.col_type != DbType::Null
                    &&& m.default@ != crate::value::DbVal::Null
                },
        decreases nr - i,
    {
        let raw = &raws[i];
        let col_type = crate::schema::get_type_from_str(raw.decl_type.as_str());
        if col_type == DbType::Null {
            return Err(
                StoreError::InvalidColumnType {
                    table: table.to_owned(),
                    column: raw.name.clone(),
                    declared: raw.decl_type.clone(),
                },
            );
        }
        let d0 = raw.dflt.clone();
        let d1 = match d0 {
            DbValue::Text(s) => {
                let blankish = s.as_str().unicode_len() == 0 || crate::strutil::str_eq(
                    s.as_str(),
                    "''",
                ) || crate::strutil::str_eq(s.as_str(), "\"\"");
                if blankish {
                    DbValue::Text(String::new())
                } else {
                    DbValue::Text(s)
                }
            },
            other => other,
        };
        let d2 = match d1 {
            DbValue::Null => crate::schema::get_default_db_value(col_type),
            other => other,
        };
        if !crate::assoc::assoc_has(&metas, raw.name.as_str()) {
            let ghost old_metas = metas@;
            let meta = ColumnMeta {
                name: raw.name.clone(),
                col_type,
                is_required: raw.notnull,
                default: d2,
                is_pk: raw.is_pk,
            };
            metas.push((raw.name.clone(), meta));
            proof {
                crate::assoc::lemma_lookup_exists(old_metas, raw.name@);
                assert(forall|x: int|
                    0 <= x < old_metas.len() ==> (#[trigger] metas@[x]) == old_metas[x]);
            }
        }
        i = i + 1;
    }
    Ok(metas)
}

/// Read the name and column metadata of every user table, leaving out the
/// system tables and the given exclusion list. What the catalog lists is
/// the database's to decide; the result always has distinct table names
/// and, per table, distinct column names.
#[verifier::loop_isolation(false)]
pub fn extract_schema_metadata(conn: &rusqlite::Connection, excluded_tables: &[&str]) -> (r:
    Result<Vec<TableMeta>, StoreError>)
    ensures
        r matches Ok(ts) ==> keys_distinct(ts@) && (forall|j: int|
            0 <= j < ts@.len() ==> keys_distinct((#[trigger] ts@[j]).1@)),
        r matches Err(e) ==> (e is Db || e is InvalidColumnType),
{
    let mut q = String::new();
    q.append("SELECT name FROM sqlite_master WHERE type='table' AND name NOT LIKE 'sqlite_%'");
    let ne = excluded_tables.len();
    let mut i: usize = 0;
    while i < ne
        decreases ne - i,
    {
        let trimmed = crate::strutil::trim_str(excluded_tables[i]);
        q.append(" AND name NOT LIKE '");
        q.append(trimmed.as_str());
        q.append("'");
        i = i + 1;
    }
    q.append(" ORDER BY name;");
    let names = match crate::db::db_query_strings(conn, q.as_str()) {
        Ok(ns) => ns,
        Err(msg) => {
            return Err(StoreError::Db { message: msg });
        },
    };
    let mut tables: Vec<TableMeta> = Vec::new();
    let nn = names.len();
    let mut j: usize = 0;
    while j < nn
        invariant
            0 <= j <= nn,
            keys_distinct(tables@),
            forall|x: int| 0 <= x < tables@.len() ==> keys_distinct((#[trigger] tables@[x]).1@),
        decreases nn - j,
    {
        let name = &names[j];
        if !crate::assoc::assoc_has(&tables, name.as_str()) {
            let cols = match get_columns_meta(conn, name.as_str()) {
                Ok(cs) => cs,
                Err(e) => {
                    return Err(e);
                },
            };
            let ghost old_tables = tables@;
            tables.push((name.clone(), cols));
            proof {
                crate::assoc::lemma_lookup_exists(old_tables, name@);
                assert(forall|x: int|
                    0 <= x < old_tables.len() ==> (#[trigger] tables@[x]) == old_tables[x]);
            }
        }
        j = j + 1;
    }
    Ok(tables)
}

/// Fetch the schema family of the connected database: read the catalog,
/// then resolve all relationships by naming convention. A blank peer prefix
/// or splitter falls back to `"rel"` and `"_"`. The catalog's metadata
/// queries cannot be parameterized, so this must only run during trusted
/// initialization, never on request-controlled input.
pub fn fetch_schema_family(
    conn: &rusqlite::Connection,
    excluded_tables: &[&str],
    peer_prefix: &str,
    peer_splitter: &str,
) -> (r: Result<SchemaFamily, StoreError>)
    ensures
        r matches Ok(f) ==> f.wf(),
        r matches Err(e) ==> (e is Db || e is InvalidColumnType || e is BadPeerTableName
            || e is MissingFkColumn || e is MissingPeerTable || e is FkTypeMismatch),
{
    let prefix = if crate::strutil::check_blank_text(peer_prefix) {
        "rel"
    } else {
        peer_prefix
    };
    let splitter = if crate::strutil::check_blank_text(peer_splitter) {
        "_"
    } else {
        peer_splitter
    };
    proof {
        reveal_strlit("_");
        assert(splitter@.len() > 0) by {
            if !crate::strutil::is_blank_text(peer_splitter@) {
                assert(peer_splitter@.len() > 0);
            }
        }
    }
    let metadata = match extract_schema_metadata(conn, excluded_tables) {
        Ok(m) => m,
        Err(e) => {
            return Err(e);
        },
    };
    resolve_schema_family(&metadata, prefix, splitter)
}

impl SchemaFamily {
    /// Fetch the schema family of the connected database; see
    /// [`fetch_schema_family`].
    pub fn fetch(
        conn: &rusqlite::Connection,
        excluded_tables: &[&str],
        peer_prefix: &str,
        peer_splitter: &str,
    ) -> (r: Result<SchemaFamily, StoreError>)
        ensures
            r matches Ok(f) ==> f.wf(),
            r matches Err(e) ==> (e is Db || e is InvalidColumnType || e is BadPeerTableName
                || e is MissingFkColumn || e is MissingPeerTable || e is FkTypeMismatch),
    {
        fetch_schema_family(conn, excluded_tables, peer_prefix, peer_splitter)
    }
}

} // verus!
