//! Updates: verify the payload in partial mode, forbid any rewrite of the
//! primary key, and update the rows matched by a non-empty condition, by
//! primary key, or by parenthood.

use vstd::prelude::*;

use crate::assoc::{has_key, keys_distinct};
use crate::error::StoreError;
use crate::family::SchemaFamily;
use crate::sql::{get_fk_union_config, in_them_and, vals_model, WhereConfig};
use crate::value::{DbValue, RecordOwned};
use crate::verify::{
    col_err_cause, get_verified_input, parenthood_ok, payload_ok, pk_ok, the_schema,
    verify_parenthood, verify_pk, write_err_cause, VerifyConf,
};

verus! {

/// An update payload passes: it verifies in partial mode and does not name
/// the primary-key column.
pub open spec fn update_payload_ok(
    f: SchemaFamily,
    table: Seq<char>,
    input: Seq<(String, DbValue)>,
    dia: bool,
) -> bool {
    &&& payload_ok(f, table, input, dia, false)
    &&& !has_key(input, the_schema(f, table).pk@)
}

/// What an update error says of its cause: a write-verification failure,
/// or an attempt to rewrite the primary key — refused because it would
/// rewrite a row's identity.
pub open spec fn update_err_cause(
    f: SchemaFamily,
    table: Seq<char>,
    input: Seq<(String, DbValue)>,
    dia: bool,
    e: StoreError,
) -> bool {
    ||| write_err_cause(f, table, input, dia, false, e)
    ||| (e matches StoreError::PkNotUpdatable { table: t, pk } && t@ == table && pk@
        == the_schema(f, table).pk@ && has_key(input, pk@))
}

/// Update every record matching the condition: the payload is verified in
/// partial mode, a payload that names the primary key is refused — that
/// would rewrite a row's identity — and a blank condition is refused
/// rather than run unconditionally.
pub fn update_all(
    conn: &rusqlite::Connection,
    schema_family: &SchemaFamily,
    table: &str,
    input: &RecordOwned,
    where_config: WhereConfig,
    default_if_absent: bool,
) -> (r: Result<(), StoreError>)
    requires
        schema_family.wf(),
        keys_distinct(input@),
    ensures
        r is Ok ==> update_payload_ok(*schema_family, table@, input@, default_if_absent)
            && !crate::strutil::is_blank_text(where_config.0@),
        r matches Err(e) ==> (update_err_cause(
            *schema_family,
            table@,
            input@,
            default_if_absent,
            e,
        ) || (e matches StoreError::EmptyWhereClause && crate::strutil::is_blank_text(
            where_config.0@,
        )) || e is Db),
        (update_payload_ok(*schema_family, table@, input@, default_if_absent)
            && !crate::strutil::is_blank_text(where_config.0@)) ==> (r is Ok || (r matches Err(e)
            && e is Db)),
        !(update_payload_ok(*schema_family, table@, input@, default_if_absent)
            && !crate::strutil::is_blank_text(where_config.0@)) ==> (r matches Err(e) && !(
        e is Db)),
{
    let schema = schema_family.try_get_schema(table)?;
    let verified_input = get_verified_input(
        schema_family,
        table,
        input,
        VerifyConf { default_if_absent, must_have_every_col: false },
    )?;
    if crate::assoc::assoc_has(input, schema.pk.as_str()) {
        return Err(
            StoreError::PkNotUpdatable { table: table.to_owned(), pk: schema.pk.clone() },
        );
    }
    crate::basics::update(conn, table, &verified_input, where_config)
}

/// Update records by their primary-key values, with an optional further
/// condition merged in.
pub fn update_by_pk(
    conn: &rusqlite::Connection,
    schema_family: &SchemaFamily,
    table: &str,
    input: &RecordOwned,
    pk_values: &[DbValue],
    where_config: Option<WhereConfig>,
    default_if_absent: bool,
) -> (r: Result<(), StoreError>)
    requires
        schema_family.wf(),
        keys_distinct(input@),
    ensures
        r is Ok ==> update_payload_ok(*schema_family, table@, input@, default_if_absent)
            && pk_ok(*schema_family, table@, vals_model(pk_values@)),
        (update_payload_ok(*schema_family, table@, input@, default_if_absent) && pk_ok(
            *schema_family,
            table@,
            vals_model(pk_values@),
        )) ==> (r is Ok || (r matches Err(e) && e is Db)),
        !(update_payload_ok(*schema_family, table@, input@, default_if_absent) && pk_ok(
            *schema_family,
            table@,
            vals_model(pk_values@),
        )) ==> (r matches Err(e) && !(e is Db)),
        r matches Err(e) ==> (update_err_cause(
            *schema_family,
            table@,
            input@,
            default_if_absent,
            e,
        ) || (exists|i: int|
            0 <= i < pk_values@.len() && col_err_cause(
                *schema_family,
                table@,
                the_schema(*schema_family, table@).pk@,
                (#[trigger] pk_values@[i])@,
                e,
            )) || e is Db),
{
    let schema = schema_family.try_get_schema(table)?;
    match verify_pk(schema_family, table, pk_values) {
        Ok(()) => {},
        Err(e) => {
            return Err(e);
        },
    }
    let combined_q_config = in_them_and(schema.pk.as_str(), pk_values, where_config);
    proof {
        reveal_strlit("(");
        assert(combined_q_config.0@[0] == '(');
        assert(!crate::strutil::is_blank_text(combined_q_config.0@));
    }
    update_all(
        conn,
        schema_family,
        table,
        input,
        (combined_q_config.0.as_str(), combined_q_config.1.as_slice()),
        default_if_absent,
    )
}

/// Update every record of a child table belonging to any of the supplied
/// parent groups, each group validated as genuine parenthood first.
pub fn update_children_of(
    conn: &rusqlite::Connection,
    schema_family: &SchemaFamily,
    child_table: &str,
    parent_info: &Vec<(String, Vec<DbValue>)>,
    input: &RecordOwned,
    where_config_opt: Option<WhereConfig>,
    default_if_absent: bool,
) -> (r: Result<(), StoreError>)
    requires
        schema_family.wf(),
        keys_distinct(input@),
    ensures
        r is Ok ==> update_payload_ok(*schema_family, child_table@, input@, default_if_absent)
            && (forall|i: int|
            0 <= i < parent_info@.len() ==> parenthood_ok(
                *schema_family,
                child_table@,
                (#[trigger] parent_info@[i]).0@,
                vals_model(parent_info@[i].1@),
            )),
        (update_payload_ok(*schema_family, child_table@, input@, default_if_absent) && (forall|
            i: int,
        |
            0 <= i < parent_info@.len() ==> parenthood_ok(
                *schema_family,
                child_table@,
                (#[trigger] parent_info@[i]).0@,
                vals_model(parent_info@[i].1@),
            ))) ==> (r is Ok || (r matches Err(e) && e is Db)),
        !(update_payload_ok(*schema_family, child_table@, input@, default_if_absent) && (forall|
            i: int,
        |
            0 <= i < parent_info@.len() ==> parenthood_ok(
                *schema_family,
                child_table@,
                (#[trigger] parent_info@[i]).0@,
                vals_model(parent_info@[i].1@),
            ))) ==> (r matches Err(e) && !(e is Db)),
        r matches Err(e) ==> (update_err_cause(
            *schema_family,
            child_table@,
            input@,
            default_if_absent,
            e,
        ) || (e matches StoreError::NotChildOf { child, parent } && child@ == child_table@
            && !crate::family::rel_has(schema_family.parents@, child_table@, parent@) && (exists|
            i: int,
        |
            0 <= i < parent_info@.len() && (#[trigger] parent_info@[i]).0@ == parent@)) || (
        exists|i: int, j: int|
            #![trigger parent_info@[i], parent_info@[i].1@[j]]
            0 <= i < parent_info@.len() && 0 <= j < parent_info@[i].1@.len() && {
                let parent = parent_info@[i].0@;
                let v = parent_info@[i].1@[j]@;
                col_err_cause(
                    *schema_family,
                    parent,
                    the_schema(*schema_family, parent).pk@,
                    v,
                    e,
                ) || col_err_cause(
                    *schema_family,
                    child_table@,
                    crate::resolve::fk_col_of(parent, the_schema(*schema_family, parent).pk@),
                    v,
                    e,
                )
            }) || (e matches StoreError::TableNotFound { table: t } && !has_key(
            schema_family.map@,
            t@,
        ) && (exists|i: int| 0 <= i < parent_info@.len() && (#[trigger] parent_info@[i]).0@
            == t@)) || e is Db),
{
    let np = parent_info.len();
    let mut i: usize = 0;
    while i < np
        invariant
            0 <= i <= np,
            np == parent_info@.len(),
            schema_family.wf(),
            forall|j: int|
                0 <= j < i ==> parenthood_ok(
                    *schema_family,
                    child_table@,
                    (#[trigger] parent_info@[j]).0@,
                    vals_model(parent_info@[j].1@),
                ),
        decreases np - i,
    {
        match verify_parenthood(
            schema_family,
            child_table,
            parent_info[i].0.as_str(),
            parent_info[i].1.as_slice(),
        ) {
            Ok(()) => {},
            Err(e) => {
                proof {
                    assert(parent_info@[i as int].0@ == parent_info[i as int].0@);
                }
                return Err(e);
            },
        }
        i = i + 1;
    }
    let combined_q_config = match get_fk_union_config(
        schema_family,
        parent_info,
        where_config_opt,
    ) {
        Ok(c) => c,
        Err(e) => {
            proof {
                assert(false);
            }
            return Err(e);
        },
    };
    proof {
        reveal_strlit("(");
        assert(combined_q_config.0@[0] == '(');
        assert(!crate::strutil::is_blank_text(combined_q_config.0@));
    }
    update_all(
        conn,
        schema_family,
        child_table,
        input,
        (combined_q_config.0.as_str(), combined_q_config.1.as_slice()),
        default_if_absent,
    )
}

} // verus!
