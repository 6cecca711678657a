//! Validation of caller input against the schema family: table names, where
//! clauses, single values, primary and foreign keys, parenthood, and the
//! write verifier that checks and normalizes a whole payload before an
//! insert or update.

use vstd::prelude::*;

use crate::assoc::{
    assoc_get, assoc_has, has_key, keys_distinct, lemma_lookup_exists, lemma_lookup_index,
    lemma_lookup_push, lookup,
};
use crate::error::StoreError;
use crate::family::{rel_has, SchemaFamily};
use crate::resolve::fk_col_of;
use crate::schema::Schema;
use crate::strutil::check_blank_text;
use crate::value::{DbVal, DbValue, RecordOwned};

verus! {

/// Reject an empty table name.
pub fn verify_table_name(table_name: &str) -> (r: Result<(), StoreError>)
    ensures
        r is Ok <==> table_name@.len() != 0,
        r matches Err(e) ==> e is EmptyTableName,
{
    if table_name.is_empty() {
        Err(StoreError::EmptyTableName)
    } else {
        Ok(())
    }
}

/// Reject an empty or whitespace-only where clause, which would otherwise
/// turn a guarded delete or update into an unconditional one.
pub fn verify_where_clause(where_clause: &str) -> (r: Result<(), StoreError>)
    ensures
        r is Ok <==> !crate::strutil::is_blank_text(where_clause@),
        r matches Err(e) ==> e is EmptyWhereClause,
{
    if check_blank_text(where_clause) {
        Err(StoreError::EmptyWhereClause)
    } else {
        Ok(())
    }
}

/// The foreign-key column name of a table under the fixed `_id` suffix
/// shorthand. This shorthand is right only for tables whose primary key is
/// named `id`; the engine itself never uses it — every relationship path
/// goes through [`get_fk_name`], which follows the load-bearing
/// `<table>_<that table's primary key>` convention for any key name.
pub fn fk_name(main_table_name: &str) -> (r: String)
    ensures
        r@ == main_table_name@ + "_id"@,
{
    let mut s = main_table_name.to_owned();
    s.append("_id");
    s
}

/// The foreign-key column name other tables use to reference `table`:
/// the table's name, an underscore, and its primary-key column.
pub fn get_fk_name(table: &str, schema_family: &SchemaFamily) -> (r: Result<String, StoreError>)
    ensures
        match r {
            Ok(s) => lookup(schema_family.map@, table@) matches Some(sc) && s@ == fk_col_of(
                table@,
                sc.pk@,
            ),
            Err(e) => !has_key(schema_family.map@, table@) && (e matches
                StoreError::TableNotFound { table: t } && t@ == table@),
        },
{
    let schema = schema_family.try_get_schema(table)?;
    let mut s = table.to_owned();
    s.append("_");
    s.append(schema.pk.as_str());
    Ok(s)
}

/// The schema that the family holds for a table.
pub open spec fn the_schema(f: SchemaFamily, table: Seq<char>) -> Schema
    recommends
        has_key(f.map@, table),
{
    lookup(f.map@, table).unwrap()
}

/// A value fits a column: the table and the column exist and the value's
/// storage class equals the column's declared type.
pub open spec fn col_val_ok(f: SchemaFamily, table: Seq<char>, col: Seq<char>, v: DbVal) -> bool {
    &&& has_key(f.map@, table)
    &&& (lookup(the_schema(f, table).types@, col) matches Some(t) && v.type_of() == t)
}

/// Every given value fits the table's primary-key column.
pub open spec fn pk_ok(f: SchemaFamily, table: Seq<char>, vals: Seq<DbVal>) -> bool {
    &&& has_key(f.map@, table)
    &&& forall|i: int|
        0 <= i < vals.len() ==> col_val_ok(f, table, the_schema(f, table).pk@, #[trigger] vals[i])
}

/// Every given value fits the foreign-key column of `parent` in `table`.
pub open spec fn fk_ok(
    f: SchemaFamily,
    table: Seq<char>,
    parent: Seq<char>,
    vals: Seq<DbVal>,
) -> bool {
    &&& has_key(f.map@, parent)
    &&& forall|i: int|
        0 <= i < vals.len() ==> col_val_ok(
            f,
            table,
            fk_col_of(parent, the_schema(f, parent).pk@),
            #[trigger] vals[i],
        )
}

/// `child` is a child of `parent` and the given key values fit both the
/// parent's primary key and the child's foreign-key column.
pub open spec fn parenthood_ok(
    f: SchemaFamily,
    child: Seq<char>,
    parent: Seq<char>,
    vals: Seq<DbVal>,
) -> bool {
    &&& rel_has(f.parents@, child, parent)
    &&& pk_ok(f, parent, vals)
    &&& fk_ok(f, child, parent, vals)
}

/// What a value-check error says of its cause, for one checked column of
/// one table: the named table is absent, the named column is undeclared,
/// or the value's storage class contradicts the column's declared type.
pub open spec fn col_err_cause(
    f: SchemaFamily,
    table: Seq<char>,
    col: Seq<char>,
    v: DbVal,
    e: StoreError,
) -> bool {
    match e {
        StoreError::TableNotFound { table: t } => t@ == table && !has_key(f.map@, table),
        StoreError::UnknownColumn { table: t, column: c } => t@ == table && c@ == col && has_key(
            f.map@,
            table,
        ) && !the_schema(f, table).has_col(col),
        StoreError::TypeMismatch { table: t, column: c, expected, actual } => t@ == table && c@
            == col && has_key(f.map@, table) && lookup(the_schema(f, table).types@, col) == Some(
            expected,
        ) && v.type_of() == actual && actual != expected,
        _ => false,
    }
}

/// Verify that a value fits a column of a table.
pub fn verify_column_val(
    schema_family: &SchemaFamily,
    table: &str,
    col_name: &str,
    col_val: &DbValue,
) -> (r: Result<(), StoreError>)
    ensures
        r is Ok <==> col_val_ok(*schema_family, table@, col_name@, col_val@),
        r matches Err(e) ==> col_err_cause(*schema_family, table@, col_name@, col_val@, e),
{
    let schema = schema_family.try_get_schema(table)?;
    match assoc_get(&schema.types, col_name) {
        Some(t) => {
            let actual = col_val.data_type();
            if actual != *t {
                Err(
                    StoreError::TypeMismatch {
                        table: table.to_owned(),
                        column: col_name.to_owned(),
                        expected: *t,
                        actual,
                    },
                )
            } else {
                Ok(())
            }
        },
        None => Err(
            StoreError::UnknownColumn { table: table.to_owned(), column: col_name.to_owned() },
        ),
    }
}

/// Verify the primary-key values supplied for a table.
pub fn verify_pk(schema_family: &SchemaFamily, table: &str, pk_values: &[DbValue]) -> (r: Result<
    (),
    StoreError,
>)
    ensures
        r is Ok <==> pk_ok(*schema_family, table@, crate::sql::vals_model(pk_values@)),
        r matches Err(e) ==> ((e matches StoreError::TableNotFound { table: t } && t@ == table@
            && !has_key(schema_family.map@, table@)) || (exists|i: int|
            0 <= i < pk_values@.len() && col_err_cause(
                *schema_family,
                table@,
                the_schema(*schema_family, table@).pk@,
                (#[trigger] pk_values@[i])@,
                e,
            ))),
{
    let schema = schema_family.try_get_schema(table)?;
    let n = pk_values.len();
    let mut i: usize = 0;
    while i < n
        invariant
            0 <= i <= n,
            n == pk_values@.len(),
            has_key(schema_family.map@, table@),
            schema.pk@ == the_schema(*schema_family, table@).pk@,
            forall|j: int|
                0 <= j < i ==> col_val_ok(
                    *schema_family,
                    table@,
                    the_schema(*schema_family, table@).pk@,
                    #[trigger] pk_values@[j]@,
                ),
        decreases n - i,
    {
        match verify_column_val(schema_family, table, schema.pk.as_str(), &pk_values[i]) {
            Ok(()) => {},
            Err(e) => {
                proof {
                    assert(crate::sql::vals_model(pk_values@)[i as int] == pk_values@[i as int]@);
                    assert(col_err_cause(
                        *schema_family,
                        table@,
                        the_schema(*schema_family, table@).pk@,
                        pk_values@[i as int]@,
                        e,
                    ));
                }
                return Err(e);
            },
        }
        i = i + 1;
    }
    proof {
        assert(forall|j: int|
            0 <= j < n ==> crate::sql::vals_model(pk_values@)[j] == (#[trigger] pk_values@[j])@);
    }
    Ok(())
}

/// Verify the foreign-key values supplied for a child table referencing
/// `parent_table`.
pub fn verify_fk(
    schema_family: &SchemaFamily,
    table: &str,
    parent_table: &str,
    fk_val: &[DbValue],
) -> (r: Result<(), StoreError>)
    ensures
        r is Ok <==> fk_ok(
            *schema_family,
            table@,
            parent_table@,
            crate::sql::vals_model(fk_val@),
        ),
        r matches Err(e) ==> ((e matches StoreError::TableNotFound { table: t } && t@
            == parent_table@ && !has_key(schema_family.map@, parent_table@)) || (exists|i: int|
            0 <= i < fk_val@.len() && col_err_cause(
                *schema_family,
                table@,
                fk_col_of(parent_table@, the_schema(*schema_family, parent_table@).pk@),
                (#[trigger] fk_val@[i])@,
                e,
            ))),
{
    let fkn = match get_fk_name(parent_table, schema_family) {
        Ok(s) => s,
        Err(e) => {
            return Err(e);
        },
    };
    let n = fk_val.len();
    let mut i: usize = 0;
    while i < n
        invariant
            0 <= i <= n,
            n == fk_val@.len(),
            has_key(schema_family.map@, parent_table@),
            fkn@ == fk_col_of(parent_table@, the_schema(*schema_family, parent_table@).pk@),
            forall|j: int|
                0 <= j < i ==> col_val_ok(
                    *schema_family,
                    table@,
                    fk_col_of(parent_table@, the_schema(*schema_family, parent_table@).pk@),
                    #[trigger] fk_val@[j]@,
                ),
        decreases n - i,
    {
        match verify_column_val(schema_family, table, fkn.as_str(), &fk_val[i]) {
            Ok(()) => {},
            Err(e) => {
                proof {
                    assert(crate::sql::vals_model(fk_val@)[i as int] == fk_val@[i as int]@);
                    assert(col_err_cause(
                        *schema_family,
                        table@,
                        fk_col_of(parent_table@, the_schema(*schema_family, parent_table@).pk@),
                        fk_val@[i as int]@,
                        e,
                    ));
                }
                return Err(e);
            },
        }
        i = i + 1;
    }
    proof {
        assert(forall|j: int|
            0 <= j < n ==> crate::sql::vals_model(fk_val@)[j] == (#[trigger] fk_val@[j])@);
    }
    Ok(())
}

/// Verify a parenthood relationship together with the key values used
/// across it.
pub fn verify_parenthood(
    schema_family: &SchemaFamily,
    child_table: &str,
    parent_table: &str,
    parent_vals: &[DbValue],
) -> (r: Result<(), StoreError>)
    ensures
        r is Ok <==> parenthood_ok(
            *schema_family,
            child_table@,
            parent_table@,
            crate::sql::vals_model(parent_vals@),
        ),
        r matches Err(e) ==> ((e matches StoreError::NotChildOf { child, parent } && child@
            == child_table@ && parent@ == parent_table@ && !rel_has(
            schema_family.parents@,
            child_table@,
            parent_table@,
        )) || (e matches StoreError::TableNotFound { table: t } && t@ == parent_table@
            && !has_key(schema_family.map@, parent_table@)) || (exists|i: int|
            0 <= i < parent_vals@.len() && (col_err_cause(
                *schema_family,
                parent_table@,
                the_schema(*schema_family, parent_table@).pk@,
                (#[trigger] parent_vals@[i])@,
                e,
            ) || col_err_cause(
                *schema_family,
                child_table@,
                fk_col_of(parent_table@, the_schema(*schema_family, parent_table@).pk@),
                parent_vals@[i]@,
                e,
            )))),
{
    match schema_family.verify_child_of(child_table, parent_table) {
        Ok(()) => {},
        Err(e) => {
            return Err(e);
        },
    }
    match verify_pk(schema_family, parent_table, parent_vals) {
        Ok(()) => {},
        Err(e) => {
            return Err(e);
        },
    }
    verify_fk(schema_family, child_table, parent_table, parent_vals)
}

/// How a write payload is to be verified: whether an absent or empty value
/// falls back to the column default, and whether every schema column must
/// end up present (the create path) or only those the payload names (the
/// update path).
pub struct VerifyConf {
    /// Use the column default when the supplied value is absent or empty.
    pub default_if_absent: bool,
    /// Fill in and check every schema column, not only the supplied ones.
    pub must_have_every_col: bool,
}

/// The column's default value as the write path sees it.
pub open spec fn default_model(s: Schema, k: Seq<char>) -> DbVal {
    match lookup(s.defaults@, k) {
        Some(d) => d@,
        None => DbVal::Null,
    }
}

/// The value a payload entry normalizes to: the default when the supplied
/// value is empty and defaults are requested, else the value itself.
pub open spec fn normalized_val(s: Schema, k: Seq<char>, v: DbVal, dia: bool) -> DbVal {
    if v.is_empty_val() && dia {
        default_model(s, k)
    } else {
        v
    }
}

/// One payload entry passes: the column is declared, the normalized value
/// has the declared type, and a required column's normalized value is not
/// empty.
pub open spec fn entry_ok(s: Schema, k: Seq<char>, v: DbVal, dia: bool) -> bool {
    &&& s.has_col(k)
    &&& (lookup(s.types@, k) matches Some(t) && normalized_val(s, k, v, dia).type_of() == t)
    &&& (s.is_required_col(k) ==> !normalized_val(s, k, v, dia).is_empty_val())
}

/// A column the payload leaves out passes the full-column check: a
/// required column never silently passes — it is only accepted when
/// defaults are requested and its default is not empty.
pub open spec fn absent_ok(s: Schema, k: Seq<char>, dia: bool) -> bool {
    s.is_required_col(k) ==> (dia && !default_model(s, k).is_empty_val())
}

/// What verification promises of a record it hands back: distinct keys;
/// exactly the payload's keys, plus (in full-column mode) every schema
/// column; each payload value normalized, each filled-in column holding
/// its default.
pub open spec fn verified_record(
    f: SchemaFamily,
    table: Seq<char>,
    input: Seq<(String, DbValue)>,
    rec: Seq<(String, DbValue)>,
    conf_dia: bool,
    conf_all: bool,
) -> bool {
    let s = the_schema(f, table);
    &&& keys_distinct(rec)
    &&& (forall|k: Seq<char>|
        #[trigger] has_key(rec, k) <==> has_key(input, k) || (conf_all && has_key(s.types@, k)))
    &&& (forall|k: Seq<char>|
        (#[trigger] lookup(input, k)) matches Some(v) ==> (lookup(rec, k) matches Some(rv)
            && rv@ == normalized_val(s, k, v@, conf_dia)))
    &&& (forall|k: Seq<char>|
        !has_key(input, k) && #[trigger] has_key(rec, k) ==> (lookup(rec, k) matches Some(rv)
            && rv@ == default_model(s, k)))
}

/// The whole payload verifies against the table under the given
/// configuration.
pub open spec fn payload_ok(
    f: SchemaFamily,
    table: Seq<char>,
    input: Seq<(String, DbValue)>,
    conf_dia: bool,
    conf_all: bool,
) -> bool {
    &&& has_key(f.map@, table)
    &&& (forall|i: int|
        0 <= i < input.len() ==> entry_ok(
            the_schema(f, table),
            (#[trigger] input[i]).0@,
            input[i].1@,
            conf_dia,
        ))
    &&& (conf_all ==> forall|j: int|
        0 <= j < the_schema(f, table).types@.len() ==> (!has_key(
            input,
            (#[trigger] the_schema(f, table).types@[j]).0@,
        ) ==> absent_ok(the_schema(f, table), the_schema(f, table).types@[j].0@, conf_dia)))
}


/// What a write-verification error says of its cause: the table is absent;
/// the named column is one the payload supplies but the schema does not
/// declare; the named column's normalized value carries the wrong storage
/// class; or the named required column ends up empty — either supplied
/// empty, or (in full-column mode) absent with no usable default.
pub open spec fn write_err_cause(
    f: SchemaFamily,
    table: Seq<char>,
    input: Seq<(String, DbValue)>,
    dia: bool,
    mhec: bool,
    e: StoreError,
) -> bool {
    let s = the_schema(f, table);
    match e {
        StoreError::TableNotFound { table: t } => t@ == table && !has_key(f.map@, table),
        StoreError::UnknownColumn { table: t, column: c } => t@ == table && has_key(input, c@)
            && !s.has_col(c@),
        StoreError::TypeMismatch { table: t, column: c, expected, actual } => t@ == table
            && lookup(s.types@, c@) == Some(expected) && (lookup(input, c@) matches Some(v)
            && normalized_val(s, c@, v@, dia).type_of() == actual) && actual != expected,
        StoreError::RequiredFieldMissing { table: t, column: c } => t@ == table
            && s.is_required_col(c@) && ((lookup(input, c@) matches Some(v) && normalized_val(
            s,
            c@,
            v@,
            dia,
        ).is_empty_val()) || (mhec && !has_key(input, c@) && has_key(s.types@, c@) && !absent_ok(
            s,
            c@,
            dia,
        ))),
        _ => false,
    }
}

/// Verify a write payload against a table's schema and hand back the
/// normalized record: a payload column the schema does not declare is
/// refused; an empty value falls back to the column default when asked;
/// every value must carry the column's declared type; a required column
/// must not end up empty. In full-column mode every column the payload
/// leaves out is filled with its default, and a required column whose
/// default is empty is refused rather than silently passed.
#[verifier::loop_isolation(false)]
#[verifier::rlimit(100)]
pub fn get_verified_input(
    schema_family: &SchemaFamily,
    table: &str,
    input: &RecordOwned,
    config: VerifyConf,
) -> (r: Result<RecordOwned, StoreError>)
    requires
        schema_family.wf(),
        keys_distinct(input@),
    ensures
        r is Ok <==> payload_ok(
            *schema_family,
            table@,
            input@,
            config.default_if_absent,
            config.must_have_every_col,
        ),
        r matches Ok(rec) ==> verified_record(
            *schema_family,
            table@,
            input@,
            rec@,
            config.default_if_absent,
            config.must_have_every_col,
        ),
        r matches Err(e) ==> write_err_cause(
            *schema_family,
            table@,
            input@,
            config.default_if_absent,
            config.must_have_every_col,
            e,
        ),
{
    let ghost dia = config.default_if_absent;
    let ghost mhec = config.must_have_every_col;
    let schema = schema_family.try_get_schema(table)?;
    proof {
        assert(*schema == the_schema(*schema_family, table@));
    }
    let ghost s = the_schema(*schema_family, table@);
    proof {
        assert(s.wf());
    }
    let mut updated: RecordOwned = Vec::new();
    let n = input.len();
    let mut i: usize = 0;
    while i < n
        invariant
            0 <= i <= n,
            updated@.len() == i,
            forall|j: int|
                0 <= j < i ==> (#[trigger] updated@[j]).0 == input@[j].0 && updated@[j].1@
                    == normalized_val(s, input@[j].0@, input@[j].1@, dia),
            forall|j: int|
                0 <= j < i ==> entry_ok(s, (#[trigger] input@[j]).0@, input@[j].1@, dia),
        decreases n - i,
    {
        let col_name = &input[i].0;
        let col_val = &input[i].1;
        if !assoc_has(&schema.types, col_name.as_str()) {
            proof {
                lemma_lookup_exists(input@, col_name@);
                assert(input@[i as int].0@ == col_name@);
            }
            return Err(
                StoreError::UnknownColumn { table: table.to_owned(), column: col_name.clone() },
            );
        }
        let use_default = config.default_if_absent && col_val.empty_check();
        let updated_value: DbValue = if use_default {
            match assoc_get(&schema.defaults, col_name.as_str()) {
                Some(d) => d.clone(),
                None => DbValue::Null,
            }
        } else {
            col_val.clone()
        };
        proof {
            assert(updated_value@ == normalized_val(s, input@[i as int].0@, input@[i as int].1@, dia));
        }
        match verify_column_val(schema_family, table, col_name.as_str(), &updated_value) {
            Ok(()) => {},
            Err(e) => {
                proof {
                    assert(!entry_ok(s, input@[i as int].0@, input@[i as int].1@, dia));
                    lemma_lookup_index(input@, i as int);
                    assert(write_err_cause(*schema_family, table@, input@, dia, mhec, e));
                }
                return Err(e);
            },
        }
        let required = crate::strutil::name_in_list(&schema.required_fields, col_name.as_str());
        if required && updated_value.empty_check() {
            proof {
                assert(!entry_ok(s, input@[i as int].0@, input@[i as int].1@, dia));
                lemma_lookup_index(input@, i as int);
            }
            return Err(
                StoreError::RequiredFieldMissing {
                    table: table.to_owned(),
                    column: col_name.clone(),
                },
            );
        }
        updated.push((col_name.clone(), updated_value));
        i = i + 1;
    }
    proof {
        assert(keys_distinct(updated@)) by {
            assert(forall|a: int|
                0 <= a < updated@.len() ==> (#[trigger] updated@[a]).0@ == input@[a].0@);
        }
        assert forall|k: Seq<char>| true implies (#[trigger] has_key(updated@, k) == has_key(
            input@,
            k,
        )) by {
            crate::assoc::lemma_has_key_pointwise(updated@, input@, k);
        }
        assert forall|k: Seq<char>| true implies ((#[trigger] lookup(input@, k)) matches Some(v)
            ==> (lookup(updated@, k) matches Some(rv) && rv@ == normalized_val(s, k, v@, dia))) by {
            lemma_lookup_exists(input@, k);
            if has_key(input@, k) {
                let j = choose|j: int| 0 <= j < input@.len() && (#[trigger] input@[j]).0@ == k;
                lemma_lookup_index(input@, j);
                lemma_lookup_index(updated@, j);
                assert(updated@[j].0@ == k);
            }
        }
        assert forall|x: int| 0 <= x < n implies has_key(
            input@,
            (#[trigger] updated@[x]).0@,
        ) by {
            lemma_lookup_exists(input@, updated@[x].0@);
            assert(input@[x].0@ == updated@[x].0@);
        }
    }
    if config.must_have_every_col {
        let m = schema.types.len();
        let mut j: usize = 0;
        while j < m
            invariant
                0 <= j <= m,
                n <= updated@.len(),
                keys_distinct(updated@),
                forall|x: int| 0 <= x < n ==> has_key(input@, (#[trigger] updated@[x]).0@),
                forall|x: int|
                    n <= x < updated@.len() ==> !has_key(input@, (#[trigger] updated@[x]).0@)
                        && updated@[x].1@ == default_model(s, updated@[x].0@) && (exists|y: int|
                        0 <= y < j && (#[trigger] s.types@[y]).0@ == updated@[x].0@),
                forall|k: Seq<char>|
                    #[trigger] has_key(updated@, k) <==> has_key(input@, k) || (!has_key(input@, k)
                        && exists|y: int| 0 <= y < j && (#[trigger] s.types@[y]).0@ == k),
                forall|k: Seq<char>|
                    (#[trigger] lookup(input@, k)) matches Some(v) ==> (lookup(updated@, k)
                        matches Some(rv) && rv@ == normalized_val(s, k, v@, dia)),
                forall|y: int|
                    0 <= y < j ==> (!has_key(input@, (#[trigger] s.types@[y]).0@) ==> absent_ok(
                        s,
                        s.types@[y].0@,
                        dia,
                    )),
            decreases m - j,
        {
            let col_name = &schema.types[j].0;
            let ghost k0 = s.types@[j as int].0@;
            if !assoc_has(input, col_name.as_str()) {
                let d: DbValue = match assoc_get(&schema.defaults, col_name.as_str()) {
                    Some(dv) => dv.clone(),
                    None => DbValue::Null,
                };
                proof {
                    assert(d@ == default_model(s, k0));
                }
                let required = crate::strutil::name_in_list(
                    &schema.required_fields,
                    col_name.as_str(),
                );
                if required && (!config.default_if_absent || d.empty_check()) {
                    proof {
                        assert(!absent_ok(s, k0, dia));
                        lemma_lookup_exists(s.types@, k0);
                        assert(s.types@[j as int].0@ == k0);
                    }
                    return Err(
                        StoreError::RequiredFieldMissing {
                            table: table.to_owned(),
                            column: col_name.clone(),
                        },
                    );
                }
                if !assoc_has(&updated, col_name.as_str()) {
                    let ghost old_updated = updated@;
                    updated.push((col_name.clone(), d));
                    proof {
                        assert(updated@[updated@.len() - 1].0@ == k0);
                        assert(forall|x: int|
                            0 <= x < old_updated.len() ==> (#[trigger] updated@[x])
                                == old_updated[x]);
                        assert(keys_distinct(updated@)) by {
                            crate::assoc::lemma_lookup_exists(old_updated, k0);
                        }
                        assert forall|k: Seq<char>| true implies (#[trigger] has_key(updated@, k)
                            <==> has_key(input@, k) || (!has_key(input@, k) && exists|y: int|
                            0 <= y < j + 1 && (#[trigger] s.types@[y]).0@ == k)) by {
                            lemma_lookup_push(old_updated, updated@[updated@.len() - 1], k);
                            if k != k0 {
                                if exists|y: int|
                                    0 <= y < j + 1 && (#[trigger] s.types@[y]).0@ == k {
                                    let y = choose|y: int|
                                        0 <= y < j + 1 && (#[trigger] s.types@[y]).0@ == k;
                                    if y < j {
                                        assert(has_key(updated@, k) == has_key(old_updated, k));
                                    }
                                }
                            }
                        }
                        assert forall|k: Seq<char>| true implies ((#[trigger] lookup(
                            input@,
                            k,
                        )) matches Some(v) ==> (lookup(updated@, k) matches Some(rv) && rv@
                            == normalized_val(s, k, v@, dia))) by {
                            lemma_lookup_push(old_updated, updated@[updated@.len() - 1], k);
                            lemma_lookup_exists(input@, k);
                        }
                    }
                } else {
                    proof {
                        let y = choose|y: int| 0 <= y < j && (#[trigger] s.types@[y]).0@ == k0;
                        assert(false);
                    }
                }
            }
            j = j + 1;
        }
        proof {
            assert forall|k: Seq<char>| true implies (#[trigger] has_key(updated@, k) <==> has_key(
                input@,
                k,
            ) || (mhec && has_key(s.types@, k))) by {
                lemma_lookup_exists(s.types@, k);
            }
            assert forall|k: Seq<char>| !has_key(input@, k) && #[trigger] has_key(
                updated@,
                k,
            ) implies (lookup(updated@, k) matches Some(rv) && rv@ == default_model(s, k)) by {
                lemma_lookup_exists(updated@, k);
                let x = choose|x: int| 0 <= x < updated@.len() && (#[trigger] updated@[x]).0@ == k;
                lemma_lookup_index(updated@, x);
                assert(x >= n);
            }
            assert forall|jj: int|
                0 <= jj < s.types@.len() implies (!has_key(
                input@,
                (#[trigger] s.types@[jj]).0@,
            ) ==> absent_ok(s, s.types@[jj].0@, dia)) by {}
        }
        Ok(updated)
    } else {
        proof {
            assert forall|k: Seq<char>| !has_key(input@, k) && #[trigger] has_key(
                updated@,
                k,
            ) implies (lookup(updated@, k) matches Some(rv) && rv@ == default_model(s, k)) by {
                assert(false);
            }
        }
        Ok(updated)
    }
}

} // verus!
