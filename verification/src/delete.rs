//! Deletion: by primary-key values, or of every child of the supplied
//! parent groups, with the same condition building and validation as the
//! corresponding reads.

use vstd::prelude::*;

use crate::assoc::has_key;
use crate::error::StoreError;
use crate::family::SchemaFamily;
use crate::sql::{get_fk_union_config, in_them_and, vals_model, WhereConfig};
use crate::value::DbValue;
use crate::verify::{col_err_cause, parenthood_ok, pk_ok, the_schema, verify_parenthood, verify_pk};

verus! {

/// Delete records by their primary-key values, with an optional further
/// condition merged in.
pub fn delete(
    conn: &rusqlite::Connection,
    schema_family: &SchemaFamily,
    table: &str,
    pk_values: &[DbValue],
    where_config: Option<WhereConfig>,
) -> (r: Result<(), StoreError>)
    requires
        schema_family.wf(),
    ensures
        r is Ok ==> pk_ok(*schema_family, table@, vals_model(pk_values@)),
        !pk_ok(*schema_family, table@, vals_model(pk_values@)) ==> (r matches Err(e) && !(
        e is Db)),
        pk_ok(*schema_family, table@, vals_model(pk_values@)) ==> (r is Ok || (r matches Err(e)
            && e is Db)),
        r matches Err(e) ==> ((e matches StoreError::TableNotFound { table: t } && t@ == table@
            && !has_key(schema_family.map@, table@)) || (exists|i: int|
            0 <= i < pk_values@.len() && col_err_cause(
                *schema_family,
                table@,
                the_schema(*schema_family, table@).pk@,
                (#[trigger] pk_values@[i])@,
                e,
            )) || e is Db),
{
    let schema = schema_family.try_get_schema(table)?;
    match verify_pk(schema_family, table, pk_values) {
        Ok(()) => {},
        Err(e) => {
            return Err(e);
        },
    }
    let combined_q_config = in_them_and(schema.pk.as_str(), pk_values, where_config);
    proof {
        reveal_strlit("(");
        assert(combined_q_config.0@[0] == '(');
        assert(!crate::strutil::is_blank_text(combined_q_config.0@));
    }
    crate::basics::del(
        conn,
        table,
        (combined_q_config.0.as_str(), combined_q_config.1.as_slice()),
    )
}

/// Delete every record of a child table belonging to any of the supplied
/// parent groups, each group validated as genuine parenthood first.
pub fn delete_children_of(
    conn: &rusqlite::Connection,
    schema_family: &SchemaFamily,
    child_table: &str,
    parent_info: &Vec<(String, Vec<DbValue>)>,
    where_config: Option<WhereConfig>,
) -> (r: Result<(), StoreError>)
    requires
        schema_family.wf(),
    ensures
        r is Ok ==> forall|i: int|
            0 <= i < parent_info@.len() ==> parenthood_ok(
                *schema_family,
                child_table@,
                (#[trigger] parent_info@[i]).0@,
                vals_model(parent_info@[i].1@),
            ),
        (has_key(schema_family.map@, child_table@) && (forall|i: int|
            0 <= i < parent_info@.len() ==> parenthood_ok(
                *schema_family,
                child_table@,
                (#[trigger] parent_info@[i]).0@,
                vals_model(parent_info@[i].1@),
            ))) ==> (r is Ok || (r matches Err(e) && e is Db)),
        !(has_key(schema_family.map@, child_table@) && (forall|i: int|
            0 <= i < parent_info@.len() ==> parenthood_ok(
                *schema_family,
                child_table@,
                (#[trigger] parent_info@[i]).0@,
                vals_model(parent_info@[i].1@),
            ))) ==> (r matches Err(e) && !(e is Db)),
        r matches Err(e) ==> ((e matches StoreError::TableNotFound { table: t } && !has_key(
            schema_family.map@,
            t@,
        ) && (t@ == child_table@ || (exists|i: int|
            0 <= i < parent_info@.len() && (#[trigger] parent_info@[i]).0@ == t@))) || (e matches
        StoreError::NotChildOf { child, parent } && child@ == child_table@
            && !crate::family::rel_has(schema_family.parents@, child_table@, parent@) && (exists|
            i: int,
        |
            0 <= i < parent_info@.len() && (#[trigger] parent_info@[i]).0@ == parent@)) || (
        exists|i: int, j: int|
            #![trigger parent_info@[i], parent_info@[i].1@[j]]
            0 <= i < parent_info@.len() && 0 <= j < parent_info@[i].1@.len() && {
                let parent = parent_info@[i].0@;
                let v = parent_info@[i].1@[j]@;
                col_err_cause(
                    *schema_family,
                    parent,
                    the_schema(*schema_family, parent).pk@,
                    v,
                    e,
                ) || col_err_cause(
                    *schema_family,
                    child_table@,
                    crate::resolve::fk_col_of(parent, the_schema(*schema_family, parent).pk@),
                    v,
                    e,
                )
            }) || e is Db),
{
    let _ = schema_family.try_get_schema(child_table)?;
    let np = parent_info.len();
    let mut i: usize = 0;
    while i < np
        invariant
            0 <= i <= np,
            np == parent_info@.len(),
            schema_family.wf(),
            forall|j: int|
                0 <= j < i ==> parenthood_ok(
                    *schema_family,
                    child_table@,
                    (#[trigger] parent_info@[j]).0@,
                    vals_model(parent_info@[j].1@),
                ),
        decreases np - i,
    {
        match verify_parenthood(
            schema_family,
            child_table,
            parent_info[i].0.as_str(),
            parent_info[i].1.as_slice(),
        ) {
            Ok(()) => {},
            Err(e) => {
                proof {
                    assert(parent_info@[i as int].0@ == parent_info[i as int].0@);
                }
                return Err(e);
            },
        }
        i = i + 1;
    }
    let combined_q_config = match get_fk_union_config(schema_family, parent_info, where_config) {
        Ok(c) => c,
        Err(e) => {
            proof {
                assert(false);
            }
            return Err(e);
        },
    };
    proof {
        reveal_strlit("(");
        assert(combined_q_config.0@[0] == '(');
        assert(!crate::strutil::is_blank_text(combined_q_config.0@));
    }
    crate::basics::del(
        conn,
        child_table,
        (combined_q_config.0.as_str(), combined_q_config.1.as_slice()),
    )
}

} // verus!
