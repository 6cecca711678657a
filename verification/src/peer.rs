//! Peer (N-to-N) operations over the junction table: the correlated
//! matching clause, linking with one existence check per pair so that no
//! duplicate row is written, and unlinking as a batched delete per pair.

use vstd::prelude::*;

use crate::assoc::has_key;
use crate::basics::{del, insert, total};
use crate::error::StoreError;
use crate::family::SchemaFamily;
use crate::sql::{merge_q_configs, vals_model, WhereConfig};
use crate::value::{DbVal, DbValue, RecordOwned};
use crate::verify::{col_err_cause, pk_ok, the_schema, verify_pk};

verus! {

/// The text of the correlated peer-matching clause.
pub open spec fn peer_clause_text(
    rel_name: Seq<char>,
    fk_name: Seq<char>,
    source_name: Seq<char>,
    source_pk: Seq<char>,
    bond: Seq<char>,
) -> Seq<char> {
    let link = fk_name + " = "@ + source_name + "."@ + source_pk;
    let bond2 = if bond.len() == 0 {
        bond
    } else {
        "AND "@ + bond
    };
    "EXISTS (SELECT 1 FROM "@ + rel_name + " WHERE "@ + link + " "@ + bond2 + ")"@
}

/// Build the WHERE fragment that matches source records having a related
/// row in the junction table: an `EXISTS` subquery correlating the
/// junction's foreign-key column with the source's primary key, with an
/// optional further condition on the junction rows.
pub fn peer_matching_clause(
    rel_name: &str,
    fk_name: &str,
    source: (&str, &str),
    bond_matching_clause: &str,
) -> (r: String)
    ensures
        r@ == peer_clause_text(rel_name@, fk_name@, source.0@, source.1@, bond_matching_clause@),
{
    let (source_name, source_pk) = source;
    let mut link_condition = fk_name.to_owned();
    link_condition.append(" = ");
    link_condition.append(source_name);
    link_condition.append(".");
    link_condition.append(source_pk);
    let mut bond = String::new();
    if !bond_matching_clause.is_empty() {
        bond.append("AND ");
        bond.append(bond_matching_clause);
    }
    let mut out = String::new();
    out.append("EXISTS (SELECT 1 FROM ");
    out.append(rel_name);
    out.append(" WHERE ");
    out.append(link_condition.as_str());
    out.append(" ");
    out.append(bond.as_str());
    out.append(")");
    proof {
        if bond_matching_clause@.len() == 0 {
            assert(bond@ =~= bond_matching_clause@);
        }
    }
    out
}

/// Check whether the junction table already holds the link between one
/// record of each side. The database's count decides.
fn nn_link_exists(
    conn: &rusqlite::Connection,
    rel_name: &str,
    a_config: (&str, &DbValue),
    b_config: (&str, &DbValue),
    where_config: Option<WhereConfig>,
) -> (r: Result<bool, StoreError>)
    ensures
        r matches Err(e) ==> e is Db,
{
    let (a_col, a_val) = a_config;
    let (b_col, b_val) = b_config;
    let mut pair_clause = a_col.to_owned();
    pair_clause.append(" = ? AND ");
    pair_clause.append(b_col);
    pair_clause.append(" = ?");
    let mut pair_params: Vec<DbValue> = Vec::new();
    pair_params.push(a_val.clone());
    pair_params.push(b_val.clone());
    let (where_clause, where_params) = merge_q_configs(
        Some((pair_clause.as_str(), pair_params.as_slice())),
        where_config,
        "AND",
    );
    let count = match total(
        conn,
        rel_name,
        None,
        Some((where_clause.as_str(), where_params.as_slice())),
    ) {
        Ok(c) => c,
        Err(e) => {
            return Err(e);
        },
    };
    Ok(count > 0)
}

/// Some element of the list models the value `v`.
pub open spec fn has_val(s: Seq<DbValue>, v: DbVal) -> bool {
    exists|j: int| 0 <= j < s.len() && (#[trigger] s[j])@ == v
}

/// Copy of the values with every later repetition of a value removed,
/// keeping first occurrences in order.
#[verifier::loop_isolation(false)]
pub fn dedup_vals(vals: &[DbValue]) -> (r: Vec<DbValue>)
    ensures
        forall|a: int, b: int| 0 <= a < b < r@.len() ==> r@[a]@ != r@[b]@,
        forall|i: int| 0 <= i < vals@.len() ==> has_val(r@, (#[trigger] vals@[i])@),
        forall|j: int| 0 <= j < r@.len() ==> has_val(vals@, (#[trigger] r@[j])@),
{
    let n = vals.len();
    let mut out: Vec<DbValue> = Vec::new();
    let mut i: usize = 0;
    while i < n
        invariant
            0 <= i <= n,
            forall|a: int, b: int| 0 <= a < b < out@.len() ==> out@[a]@ != out@[b]@,
            forall|x: int| 0 <= x < i ==> has_val(out@, (#[trigger] vals@[x])@),
            forall|j: int| 0 <= j < out@.len() ==> has_val(vals@, (#[trigger] out@[j])@),
        decreases n - i,
    {
        let ghost old_out = out@;
        let v = &vals[i];
        let mut seen = false;
        let m = out.len();
        let mut j: usize = 0;
        while j < m
            invariant
                0 <= j <= m,
                m == out@.len(),
                seen <==> exists|x: int| 0 <= x < j && (#[trigger] out@[x])@ == vals@[i as int]@,
            decreases m - j,
        {
            if out[j].same_as(v) {
                proof {
                    assert(out@[j as int]@ == vals@[i as int]@);
                }
                seen = true;
            }
            j = j + 1;
        }
        if !seen {
            out.push(v.clone());
            proof {
                assert(out@[out@.len() - 1]@ == vals@[i as int]@);
                assert(forall|x: int|
                    0 <= x < old_out.len() ==> (#[trigger] out@[x]) == old_out[x]);
            }
        }
        proof {
            assert forall|x: int| 0 <= x < i + 1 implies has_val(
                out@,
                (#[trigger] vals@[x])@,
            ) by {
                if x < i {
                    let jj = choose|jj: int|
                        0 <= jj < old_out.len() && (#[trigger] old_out[jj])@ == vals@[x]@;
                    assert(out@[jj]@ == vals@[x]@);
                } else {
                    if seen {
                        let iv = vals@[i as int]@;
                        let x2 = choose|x2: int|
                            0 <= x2 < old_out.len() && (#[trigger] old_out[x2])@ == iv;
                        assert(out@[x2]@ == vals@[x]@);
                    } else {
                        assert(out@[out@.len() - 1]@ == vals@[x]@);
                    }
                }
            }
            assert forall|jj: int| 0 <= jj < out@.len() implies has_val(
                vals@,
                (#[trigger] out@[jj])@,
            ) by {
                if jj < old_out.len() {
                    assert(has_val(vals@, old_out[jj]@));
                    assert(out@[jj]@ == old_out[jj]@);
                } else {
                    assert(vals@[i as int]@ == out@[jj]@);
                }
            }
        }
        i = i + 1;
    }
    out
}

/// Build the links between the two sides: over the deduplicated Cartesian
/// product, one existence check per pair and an insert only for the
/// missing pairs, so a pair already present is not written again. The
/// check-then-insert sequence is not transactional; racing callers need a
/// uniqueness constraint on the junction table.
fn nn(
    conn: &rusqlite::Connection,
    rel_name: &str,
    a_config: (&str, &[DbValue]),
    b_config: (&str, &[DbValue]),
) -> (r: Result<(), StoreError>)
    ensures
        r matches Err(e) ==> e is Db,
{
    let (a_col, a_vals) = a_config;
    let (b_col, b_vals) = b_config;
    let deduped_a = dedup_vals(a_vals);
    let deduped_b = dedup_vals(b_vals);
    let na = deduped_a.len();
    let nb = deduped_b.len();
    let mut i: usize = 0;
    while i < na
        invariant
            0 <= i <= na,
            na == deduped_a@.len(),
            nb == deduped_b@.len(),
        decreases na - i,
    {
        let mut j: usize = 0;
        while j < nb
            invariant
                0 <= i < na,
                0 <= j <= nb,
                na == deduped_a@.len(),
                nb == deduped_b@.len(),
            decreases nb - j,
        {
            let a_val = &deduped_a[i];
            let b_val = &deduped_b[j];
            let existed = match nn_link_exists(
                conn,
                rel_name,
                (a_col, a_val),
                (b_col, b_val),
                None,
            ) {
                Ok(b) => b,
                Err(e) => {
                    return Err(e);
                },
            };
            if !existed {
                let mut input: RecordOwned = Vec::new();
                input.push((a_col.to_owned(), a_val.clone()));
                input.push((b_col.to_owned(), b_val.clone()));
                match insert(conn, rel_name, &input) {
                    Ok(()) => {},
                    Err(e) => {
                        return Err(e);
                    },
                }
            }
            j = j + 1;
        }
        i = i + 1;
    }
    Ok(())
}

/// Delete the links of the Cartesian product of the two sides, one batched
/// delete per deduplicated pair; a pair with no junction row simply
/// deletes nothing.
fn d_all(
    conn: &rusqlite::Connection,
    rel_name: &str,
    a_config: (&str, &[DbValue]),
    b_config: (&str, &[DbValue]),
) -> (r: Result<(), StoreError>)
    ensures
        r matches Err(e) ==> e is Db,
{
    let (a_col, a_vals) = a_config;
    let (b_col, b_vals) = b_config;
    let deduped_a = dedup_vals(a_vals);
    let deduped_b = dedup_vals(b_vals);
    let na = deduped_a.len();
    let nb = deduped_b.len();
    let mut i: usize = 0;
    while i < na
        invariant
            0 <= i <= na,
            na == deduped_a@.len(),
            nb == deduped_b@.len(),
        decreases na - i,
    {
        let mut j: usize = 0;
        while j < nb
            invariant
                0 <= i < na,
                0 <= j <= nb,
                na == deduped_a@.len(),
                nb == deduped_b@.len(),
            decreases nb - j,
        {
            let mut pair_clause = a_col.to_owned();
            pair_clause.append(" = ? AND ");
            pair_clause.append(b_col);
            pair_clause.append(" = ?");
            let mut pair_params: Vec<DbValue> = Vec::new();
            pair_params.push(deduped_a[i].clone());
            pair_params.push(deduped_b[j].clone());
            proof {
                reveal_strlit(" = ? AND ");
                assert(!crate::strutil::is_blank_text(pair_clause@)) by {
                    assert(pair_clause@[a_col@.len() as int + 1] == '=');
                }
            }
            match del(conn, rel_name, (pair_clause.as_str(), pair_params.as_slice())) {
                Ok(()) => {},
                Err(e) => {
                    return Err(e);
                },
            }
            j = j + 1;
        }
        i = i + 1;
    }
    Ok(())
}

/// Read the exactly-two peer groups out of the input; any other number of
/// groups is ambiguous and refused.
pub fn get_2_configs(inputs: &Vec<(String, Vec<DbValue>)>) -> (r: Result<
    ((String, Vec<DbValue>), (String, Vec<DbValue>)),
    StoreError,
>)
    ensures
        r is Ok <==> inputs@.len() == 2,
        r matches Ok(p) ==> p.0.0@ == inputs@[0].0@ && vals_model(p.0.1@) == vals_model(
            inputs@[0].1@,
        ) && p.1.0@ == inputs@[1].0@ && vals_model(p.1.1@) == vals_model(inputs@[1].1@),
        r matches Err(e) ==> (e matches StoreError::PeerGroupCount { found } && inputs@.len()
            != 2 && found == inputs@.len()),
{
    if inputs.len() != 2 {
        return Err(StoreError::PeerGroupCount { found: inputs.len() });
    }
    let a = (inputs[0].0.clone(), crate::sql::vals_to_vec(inputs[0].1.as_slice()));
    let b = (inputs[1].0.clone(), crate::sql::vals_to_vec(inputs[1].1.as_slice()));
    Ok((a, b))
}

/// What a peer-operation error says of its cause: a group count other
/// than two; two tables that were not discovered as peers; a first table
/// with no junction table; or a key value failing the type checks of one
/// side.
pub open spec fn peer_err_cause(
    f: SchemaFamily,
    inputs: Seq<(String, Vec<DbValue>)>,
    e: StoreError,
) -> bool {
    match e {
        StoreError::PeerGroupCount { found } => inputs.len() != 2 && found == inputs.len(),
        StoreError::NotPeerOf { table, other } => inputs.len() == 2 && table@ == inputs[0].0@
            && other@ == inputs[1].0@ && !crate::family::rel_has(
            f.peers@,
            inputs[0].0@,
            inputs[1].0@,
        ),
        StoreError::NoPeerLinkTable { table } => inputs.len() == 2 && table@ == inputs[0].0@
            && !has_key(f.peer_link_tables@, inputs[0].0@),
        StoreError::TableNotFound { table } => inputs.len() == 2 && !has_key(f.map@, table@) && (
        table@ == inputs[0].0@ || table@ == inputs[1].0@),
        _ => inputs.len() == 2 && (exists|side: int, i: int|
            #![trigger inputs[side].1@[i]]
            0 <= side < 2 && 0 <= i < inputs[side].1@.len() && col_err_cause(
                f,
                inputs[side].0@,
                the_schema(f, inputs[side].0@).pk@,
                inputs[side].1@[i]@,
                e,
            )),
    }
}

/// A peer link or unlink passes validation: exactly two groups, the two
/// tables discovered as peers, every key value of the right type, and a
/// junction table known for the first group's table.
pub open spec fn peer_op_inputs_ok(f: SchemaFamily, inputs: Seq<(String, Vec<DbValue>)>) -> bool {
    &&& inputs.len() == 2
    &&& crate::family::rel_has(f.peers@, inputs[0].0@, inputs[1].0@)
    &&& pk_ok(f, inputs[0].0@, vals_model(inputs[0].1@))
    &&& pk_ok(f, inputs[1].0@, vals_model(inputs[1].1@))
    &&& has_key(f.peer_link_tables@, inputs[0].0@)
}

/// Link the records of the two groups as peers: for every pair of keys in
/// the Cartesian product, insert a junction row unless one is already
/// there. Linking an already-linked pair is a no-op.
pub fn link(
    conn: &rusqlite::Connection,
    schema_family: &SchemaFamily,
    inputs: &Vec<(String, Vec<DbValue>)>,
) -> (r: Result<(), StoreError>)
    requires
        schema_family.wf(),
    ensures
        r is Ok ==> peer_op_inputs_ok(*schema_family, inputs@),
        !peer_op_inputs_ok(*schema_family, inputs@) ==> (r matches Err(e) && !(e is Db)),
        peer_op_inputs_ok(*schema_family, inputs@) ==> (r is Ok || (r matches Err(e)
            && e is Db)),
        r matches Err(e) ==> (peer_err_cause(*schema_family, inputs@, e) || e is Db),
{
    let (a_config, b_config) = peer_op_checks(schema_family, inputs)?;
    let peer_link_table = match schema_family.try_get_peer_link_table_of(a_config.0.as_str()) {
        Ok(t) => t,
        Err(e) => {
            return Err(e);
        },
    };
    let a_col = match crate::verify::get_fk_name(a_config.0.as_str(), schema_family) {
        Ok(s) => s,
        Err(e) => {
            proof {
                assert(false);
            }
            return Err(e);
        },
    };
    let b_col = match crate::verify::get_fk_name(b_config.0.as_str(), schema_family) {
        Ok(s) => s,
        Err(e) => {
            proof {
                assert(false);
            }
            return Err(e);
        },
    };
    nn(
        conn,
        peer_link_table,
        (a_col.as_str(), a_config.1.as_slice()),
        (b_col.as_str(), b_config.1.as_slice()),
    )
}

/// Remove the links between the records of the two groups; a pair that was
/// never linked is simply skipped, not an error.
pub fn unlink(
    conn: &rusqlite::Connection,
    schema_family: &SchemaFamily,
    inputs: &Vec<(String, Vec<DbValue>)>,
) -> (r: Result<(), StoreError>)
    requires
        schema_family.wf(),
    ensures
        r is Ok ==> peer_op_inputs_ok(*schema_family, inputs@),
        !peer_op_inputs_ok(*schema_family, inputs@) ==> (r matches Err(e) && !(e is Db)),
        peer_op_inputs_ok(*schema_family, inputs@) ==> (r is Ok || (r matches Err(e)
            && e is Db)),
        r matches Err(e) ==> (peer_err_cause(*schema_family, inputs@, e) || e is Db),
{
    let (a_config, b_config) = peer_op_checks(schema_family, inputs)?;
    let peer_link_table = match schema_family.try_get_peer_link_table_of(a_config.0.as_str()) {
        Ok(t) => t,
        Err(e) => {
            return Err(e);
        },
    };
    let a_col = match crate::verify::get_fk_name(a_config.0.as_str(), schema_family) {
        Ok(s) => s,
        Err(e) => {
            proof {
                assert(false);
            }
            return Err(e);
        },
    };
    let b_col = match crate::verify::get_fk_name(b_config.0.as_str(), schema_family) {
        Ok(s) => s,
        Err(e) => {
            proof {
                assert(false);
            }
            return Err(e);
        },
    };
    d_all(
        conn,
        peer_link_table,
        (a_col.as_str(), a_config.1.as_slice()),
        (b_col.as_str(), b_config.1.as_slice()),
    )
}

/// The shared validation of link and unlink: exactly two groups, a genuine
/// peer relationship, and key values of the right types on both sides.
fn peer_op_checks(schema_family: &SchemaFamily, inputs: &Vec<(String, Vec<DbValue>)>) -> (r:
    Result<((String, Vec<DbValue>), (String, Vec<DbValue>)), StoreError>)
    requires
        schema_family.wf(),
    ensures
        r is Ok ==> inputs@.len() == 2 && crate::family::rel_has(
            schema_family.peers@,
            inputs@[0].0@,
            inputs@[1].0@,
        ) && pk_ok(*schema_family, inputs@[0].0@, vals_model(inputs@[0].1@)) && pk_ok(
            *schema_family,
            inputs@[1].0@,
            vals_model(inputs@[1].1@),
        ),
        r matches Ok(p) ==> p.0.0@ == inputs@[0].0@ && vals_model(p.0.1@) == vals_model(
            inputs@[0].1@,
        ) && p.1.0@ == inputs@[1].0@ && vals_model(p.1.1@) == vals_model(inputs@[1].1@),
        r matches Err(e) ==> !(e is Db) && peer_err_cause(*schema_family, inputs@, e),
        (inputs@.len() == 2 && crate::family::rel_has(
            schema_family.peers@,
            inputs@[0].0@,
            inputs@[1].0@,
        ) && pk_ok(*schema_family, inputs@[0].0@, vals_model(inputs@[0].1@)) && pk_ok(
            *schema_family,
            inputs@[1].0@,
            vals_model(inputs@[1].1@),
        )) ==> r is Ok,
{
    let (a_config, b_config) = get_2_configs(inputs)?;
    match schema_family.verify_peer_of(a_config.0.as_str(), b_config.0.as_str()) {
        Ok(()) => {},
        Err(e) => {
            return Err(e);
        },
    }
    match verify_pk(schema_family, a_config.0.as_str(), a_config.1.as_slice()) {
        Ok(()) => {},
        Err(e) => {
            proof {
                lemma_transfer_pk_cause(*schema_family, inputs@, a_config.1@, 0, e);
            }
            return Err(e);
        },
    }
    match verify_pk(schema_family, b_config.0.as_str(), b_config.1.as_slice()) {
        Ok(()) => {},
        Err(e) => {
            proof {
                lemma_transfer_pk_cause(*schema_family, inputs@, b_config.1@, 1, e);
            }
            return Err(e);
        },
    }
    Ok((a_config, b_config))
}

/// A value-check failure reported against a copy of one side's key values
/// is the same failure against the side of the inputs it was copied from.
proof fn lemma_transfer_pk_cause(
    f: SchemaFamily,
    inputs: Seq<(String, Vec<DbValue>)>,
    copied: Seq<DbValue>,
    side: int,
    e: StoreError,
)
    requires
        inputs.len() == 2,
        0 <= side < 2,
        vals_model(copied) == vals_model(inputs[side].1@),
        (e matches StoreError::TableNotFound { table: t } && t@ == inputs[side].0@ && !has_key(
            f.map@,
            inputs[side].0@,
        )) || (exists|i: int|
            0 <= i < copied.len() && col_err_cause(
                f,
                inputs[side].0@,
                the_schema(f, inputs[side].0@).pk@,
                (#[trigger] copied[i])@,
                e,
            )),
    ensures
        peer_err_cause(f, inputs, e),
{
    if e matches StoreError::TableNotFound { table: t } && t@ == inputs[side].0@ && !has_key(
        f.map@,
        inputs[side].0@,
    ) {
    } else {
        let i = choose|i: int|
            0 <= i < copied.len() && col_err_cause(
                f,
                inputs[side].0@,
                the_schema(f, inputs[side].0@).pk@,
                (#[trigger] copied[i])@,
                e,
            );
        assert(vals_model(copied).len() == vals_model(inputs[side].1@).len());
        assert(vals_model(copied).len() == copied.len());
        assert(vals_model(inputs[side].1@).len() == inputs[side].1@.len());
        assert(copied.len() == inputs[side].1@.len());
        assert(vals_model(copied)[i] == copied[i]@);
        assert(vals_model(inputs[side].1@)[i] == inputs[side].1@[i]@);
        assert(inputs[side].1@[i]@ == copied[i]@);
        assert(col_err_cause(
            f,
            inputs[side].0@,
            the_schema(f, inputs[side].0@).pk@,
            inputs[side].1@[i]@,
            e,
        ));
        if e is TableNotFound {
            assert(peer_err_cause(f, inputs, e)) by {
                assert(e matches StoreError::TableNotFound { table: t } && t@ == inputs[side].0@
                    && !has_key(f.map@, t@));
            }
        }
    }
}

} // verus!
