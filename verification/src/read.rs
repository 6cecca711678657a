//! The relationship-aware read operations: plain reads, reads by primary
//! key, by parenthood, by peers, and keyword search — every one validated
//! against the schema family before any SQL runs, and all funneled through
//! the one parameterized condition-building path.

use vstd::prelude::*;

use crate::assoc::has_key;
use crate::basics::{self, CountConfig, FetchConfig};
use crate::error::StoreError;
use crate::family::SchemaFamily;
use crate::schema::Schema;
use crate::sql::{get_fk_union_config, in_them_and, merge_q_configs, vals_model, WhereConfigOwned};
use crate::value::{DbVal, DbValue, RecordListOwned};
use crate::verify::{parenthood_ok, pk_ok, the_schema, verify_parenthood, verify_pk};

verus! {

/// A type that can tell which table an operation reads from.
pub trait ReadSrc {
    /// The table the operation draws from.
    fn src(&self) -> &str;
}

/// Every named column is declared by the schema.
pub open spec fn cols_ok(s: Schema, cols: Seq<&str>) -> bool {
    forall|i: int| 0 <= i < cols.len() ==> s.has_col((#[trigger] cols[i])@)
}

/// Verify that all named columns are declared in the schema.
pub fn verify_cols(schema: &Schema, cols: &[&str]) -> (r: Result<(), StoreError>)
    ensures
        r is Ok <==> cols_ok(*schema, cols@),
        r matches Err(e) ==> (e matches StoreError::UnknownColumn { table: t, column: c } && t@
            == schema.name@ && !schema.has_col(c@) && (exists|i: int|
            0 <= i < cols@.len() && (#[trigger] cols@[i])@ == c@)),
{
    match schema.find_unknown_field(cols) {
        Some(unknown) => Err(
            StoreError::UnknownColumn { table: schema.name.clone(), column: unknown },
        ),
        None => Ok(()),
    }
}

/// The display columns of a fetch configuration, or none.
pub open spec fn display_cols_of(cfg: Option<FetchConfig>) -> Seq<&str> {
    match cfg {
        Some(c) => match c.display_cols {
            Some(cols) => cols@,
            None => Seq::empty(),
        },
        None => Seq::empty(),
    }
}

/// The group-by fragment of a fetch configuration, or none.
pub open spec fn group_by_of(cfg: Option<FetchConfig>) -> Option<&str> {
    match cfg {
        Some(c) => c.group_by,
        None => None,
    }
}

/// The order-by fragment of a fetch configuration, or none.
pub open spec fn order_by_of(cfg: Option<FetchConfig>) -> Option<&str> {
    match cfg {
        Some(c) => c.order_by,
        None => None,
    }
}

/// Whether the display columns must be validated: only when no group-by
/// fragment is given.
pub open spec fn must_check_cols(cfg: Option<FetchConfig>) -> bool {
    match group_by_of(cfg) {
        Some(g) => crate::strutil::is_blank_text(g@),
        None => true,
    }
}

/// What a read error says of its cause: the named table is absent; the
/// named display column was asked for but is undeclared (checked only
/// when no grouping is in play); or the named ordering or grouping
/// fragment holds refused characters. A driver error carries whatever the
/// database reported.
pub open spec fn read_err_cause(
    f: SchemaFamily,
    table: Seq<char>,
    cfg: Option<FetchConfig>,
    e: StoreError,
) -> bool {
    match e {
        StoreError::TableNotFound { table: t } => t@ == table && !has_key(f.map@, table),
        StoreError::UnknownColumn { table: t, column: c } => t@ == table && must_check_cols(cfg)
            && !the_schema(f, table).has_col(c@) && (exists|i: int|
            0 <= i < display_cols_of(cfg).len() && (#[trigger] display_cols_of(cfg)[i])@ == c@),
        StoreError::IllegalByChars { clause } => crate::basics::illegal_by_text(clause@) && (
        clause@ == crate::basics::group_by_text(group_by_of(cfg)) || clause@
            == crate::basics::order_by_text(order_by_of(cfg))),
        StoreError::Db { .. } => true,
        _ => false,
    }
}

/// A plain read passes validation: the table exists and, unless grouping
/// is in play, every display column is declared.
pub open spec fn all_inputs_ok(
    f: SchemaFamily,
    table: Seq<char>,
    cfg: Option<FetchConfig>,
) -> bool {
    &&& has_key(f.map@, table)
    &&& (must_check_cols(cfg) ==> cols_ok(the_schema(f, table), display_cols_of(cfg)))
}

/// Read all records of a table, after validating the caller's
/// display-column allowlist against the schema; with `skip_count` the
/// returned total is the number of returned records, else the total count
/// of matching rows.
pub fn all(
    conn: &rusqlite::Connection,
    schema_family: &SchemaFamily,
    table: &str,
    fetch_config_opt: Option<FetchConfig>,
    skip_count: bool,
) -> (r: Result<(RecordListOwned, u64), StoreError>)
    requires
        schema_family.wf(),
    ensures
        r is Ok ==> all_inputs_ok(*schema_family, table@, fetch_config_opt),
        !all_inputs_ok(*schema_family, table@, fetch_config_opt) ==> (r matches Err(e) && (
        e is TableNotFound || e is UnknownColumn)),
        all_inputs_ok(*schema_family, table@, fetch_config_opt) ==> (r is Ok || (r matches Err(e)
            && (e is IllegalByChars || e is Db))),
        r matches Err(e) ==> read_err_cause(*schema_family, table@, fetch_config_opt, e),
        r matches Ok(p) ==> (skip_count ==> p.1 == p.0@.len()),
{
    let schema = schema_family.try_get_schema(table)?;
    proof {
        assert(schema.name@ == table@);
    }
    let display_cols: &[&str] = match &fetch_config_opt {
        Some(cfg) => match cfg.display_cols {
            Some(cols) => cols,
            None => &[],
        },
        None => &[],
    };
    let must_check = match &fetch_config_opt {
        Some(cfg) => match cfg.group_by {
            Some(g) => crate::strutil::check_blank_text(g),
            None => true,
        },
        None => true,
    };
    proof {
        assert(must_check == must_check_cols(fetch_config_opt));
    }
    if must_check {
        match verify_cols(schema, display_cols) {
            Ok(()) => {},
            Err(e) => {
                proof {
                    assert(display_cols@ == display_cols_of(fetch_config_opt));
                }
                return Err(e);
            },
        }
        proof {
            assert(display_cols@ == display_cols_of(fetch_config_opt));
        }
    }
    basics::read_with_total(conn, table, fetch_config_opt, skip_count)
}

/// A read by primary key passes validation: the table exists and every
/// key value carries the primary-key column's type.
pub open spec fn by_pk_inputs_ok(
    f: SchemaFamily,
    table: Seq<char>,
    pk_vals: Seq<DbVal>,
    cfg: Option<FetchConfig>,
) -> bool {
    &&& pk_ok(f, table, pk_vals)
    &&& all_inputs_ok(f, table, cfg)
}

/// Read records by their primary-key values: a plain read with an
/// `IN (…)` condition on the primary key merged in front of the caller's
/// own condition.
pub fn by_pk(
    conn: &rusqlite::Connection,
    schema_family: &SchemaFamily,
    table: &str,
    pk_values: &[DbValue],
    fetch_config_opt: Option<FetchConfig>,
    skip_count: bool,
) -> (r: Result<(RecordListOwned, u64), StoreError>)
    requires
        schema_family.wf(),
    ensures
        r is Ok ==> by_pk_inputs_ok(
            *schema_family,
            table@,
            vals_model(pk_values@),
            fetch_config_opt,
        ),
        by_pk_inputs_ok(*schema_family, table@, vals_model(pk_values@), fetch_config_opt) ==> (
        r is Ok || (r matches Err(e) && (e is IllegalByChars || e is Db))),
        !by_pk_inputs_ok(*schema_family, table@, vals_model(pk_values@), fetch_config_opt) ==> (
        r matches Err(e) && !(e is Db) && !(e is IllegalByChars)),
        r matches Err(e) ==> (read_err_cause(*schema_family, table@, fetch_config_opt, e) || (
        exists|i: int|
            0 <= i < pk_values@.len() && crate::verify::col_err_cause(
                *schema_family,
                table@,
                the_schema(*schema_family, table@).pk@,
                (#[trigger] pk_values@[i])@,
                e,
            ))),
        r matches Ok(p) ==> (skip_count ==> p.1 == p.0@.len()),
{
    let where_config = match &fetch_config_opt {
        Some(cfg) => cfg.where_config,
        None => None,
    };
    let schema = schema_family.try_get_schema(table)?;
    match verify_pk(schema_family, table, pk_values) {
        Ok(()) => {},
        Err(e) => {
            return Err(e);
        },
    }
    let combined_q_config = in_them_and(schema.pk.as_str(), pk_values, where_config);
    let inherited = with_where(fetch_config_opt, &combined_q_config);
    proof {
        assert(display_cols_of(Some(inherited)) == display_cols_of(fetch_config_opt));
        assert(must_check_cols(Some(inherited)) == must_check_cols(fetch_config_opt));
        assert(all_inputs_ok(*schema_family, table@, Some(inherited)) == all_inputs_ok(
            *schema_family,
            table@,
            fetch_config_opt,
        ));
        assert(group_by_of(Some(inherited)) == group_by_of(fetch_config_opt));
        assert(order_by_of(Some(inherited)) == order_by_of(fetch_config_opt));
    }
    all(conn, schema_family, table, Some(inherited), skip_count)
}

/// The caller's fetch configuration with its where-condition replaced.
fn with_where<'a>(fetch_config_opt: Option<FetchConfig<'a>>, combined: &'a WhereConfigOwned) -> (r:
    FetchConfig<'a>)
    ensures
        r.display_cols == match fetch_config_opt {
            Some(c) => c.display_cols,
            None => None,
        },
        r.group_by == group_by_of(fetch_config_opt),
        r.order_by == order_by_of(fetch_config_opt),
        r.where_config matches Some(w) && w.0@ == combined.0@ && vals_model(w.1@) == vals_model(
            combined.1@,
        ),
{
    match fetch_config_opt {
        Some(cfg) => FetchConfig {
            where_config: Some((combined.0.as_str(), combined.1.as_slice())),
            is_distinct: cfg.is_distinct,
            display_cols: cfg.display_cols,
            order_by: cfg.order_by,
            limit: cfg.limit,
            offset: cfg.offset,
            group_by: cfg.group_by,
        },
        None => FetchConfig {
            where_config: Some((combined.0.as_str(), combined.1.as_slice())),
            is_distinct: false,
            display_cols: None,
            order_by: None,
            limit: None,
            offset: None,
            group_by: None,
        },
    }
}

/// Count the records of a table, optionally only the distinct values of
/// one declared column.
pub fn count(
    conn: &rusqlite::Connection,
    schema_family: &SchemaFamily,
    table: &str,
    count_config_opt: Option<CountConfig>,
) -> (r: Result<i64, StoreError>)
    requires
        schema_family.wf(),
    ensures
        r is Ok ==> has_key(schema_family.map@, table@) && (match count_config_opt {
            Some(cfg) => match cfg.distinct_field {
                Some(f) => the_schema(*schema_family, table@).has_col(f@),
                None => true,
            },
            None => true,
        }),
        (has_key(schema_family.map@, table@) && (match count_config_opt {
            Some(cfg) => match cfg.distinct_field {
                Some(f) => the_schema(*schema_family, table@).has_col(f@),
                None => true,
            },
            None => true,
        })) ==> (r is Ok || (r matches Err(e) && e is Db)),
        !(has_key(schema_family.map@, table@) && (match count_config_opt {
            Some(cfg) => match cfg.distinct_field {
                Some(f) => the_schema(*schema_family, table@).has_col(f@),
                None => true,
            },
            None => true,
        })) ==> (r matches Err(e) && !(e is Db)),
        r matches Err(e) ==> (match e {
            StoreError::TableNotFound { table: t } => t@ == table@ && !has_key(
                schema_family.map@,
                table@,
            ),
            StoreError::UnknownColumn { table: t, column: c } => t@ == table@ && !the_schema(
                *schema_family,
                table@,
            ).has_col(c@) && (match count_config_opt {
                Some(cfg) => match cfg.distinct_field {
                    Some(f) => f@ == c@,
                    None => false,
                },
                None => false,
            }),
            StoreError::Db { .. } => true,
            _ => false,
        }),
{
    proof {
        if has_key(schema_family.map@, table@) {
            assert(the_schema(*schema_family, table@).name@ == table@);
        }
    }
    let distinct_field = match &count_config_opt {
        Some(cfg) => cfg.distinct_field,
        None => None,
    };
    let where_config = match count_config_opt {
        Some(cfg) => cfg.where_config,
        None => None,
    };
    let schema = schema_family.try_get_schema(table)?;
    let checked_distinct = match distinct_field {
        Some(field) => {
            let one = [field];
            match verify_cols(schema, &one) {
                Ok(()) => {},
                Err(e) => {
                    return Err(e);
                },
            }
            Some(field)
        },
        None => None,
    };
    basics::total(conn, table, checked_distinct, where_config)
}

/// A read of children passes validation: the child table exists and every
/// supplied parent group is a discovered parent with key values of the
/// right types.
pub open spec fn children_inputs_ok(
    f: SchemaFamily,
    child: Seq<char>,
    parent_info: Seq<(String, Vec<DbValue>)>,
) -> bool {
    &&& has_key(f.map@, child)
    &&& forall|i: int|
        0 <= i < parent_info.len() ==> parenthood_ok(
            f,
            child,
            (#[trigger] parent_info[i]).0@,
            vals_model(parent_info[i].1@),
        )
}

/// Read the records of a child table belonging to any of the supplied
/// parent groups, each group validated as genuine parenthood first.
pub fn children_of(
    conn: &rusqlite::Connection,
    schema_family: &SchemaFamily,
    child_table: &str,
    parent_info: &Vec<(String, Vec<DbValue>)>,
    fetch_config_opt: Option<FetchConfig>,
    skip_count: bool,
) -> (r: Result<(RecordListOwned, u64), StoreError>)
    requires
        schema_family.wf(),
    ensures
        r is Ok ==> children_inputs_ok(*schema_family, child_table@, parent_info@),
        (children_inputs_ok(*schema_family, child_table@, parent_info@) && all_inputs_ok(
            *schema_family,
            child_table@,
            fetch_config_opt,
        )) ==> (r is Ok || (r matches Err(e) && (e is IllegalByChars || e is Db))),
        !(children_inputs_ok(*schema_family, child_table@, parent_info@) && all_inputs_ok(
            *schema_family,
            child_table@,
            fetch_config_opt,
        )) ==> (r matches Err(e) && !(e is Db) && !(e is IllegalByChars)),
        r matches Err(e) ==> (read_err_cause(*schema_family, child_table@, fetch_config_opt, e)
            || (e matches StoreError::NotChildOf { child, parent } && child@ == child_table@
            && !crate::family::rel_has(schema_family.parents@, child_table@, parent@) && (exists|
            i: int,
        |
            0 <= i < parent_info@.len() && (#[trigger] parent_info@[i]).0@ == parent@)) || (
        exists|i: int, j: int|
            #![trigger parent_info@[i], parent_info@[i].1@[j]]
            0 <= i < parent_info@.len() && 0 <= j < parent_info@[i].1@.len() && {
                let parent = parent_info@[i].0@;
                let v = parent_info@[i].1@[j]@;
                crate::verify::col_err_cause(
                    *schema_family,
                    parent,
                    the_schema(*schema_family, parent).pk@,
                    v,
                    e,
                ) || crate::verify::col_err_cause(
                    *schema_family,
                    child_table@,
                    crate::resolve::fk_col_of(parent, the_schema(*schema_family, parent).pk@),
                    v,
                    e,
                )
            }) || (e matches StoreError::TableNotFound { table: t } && !has_key(
            schema_family.map@,
            t@,
        ) && (exists|i: int| 0 <= i < parent_info@.len() && (#[trigger] parent_info@[i]).0@
            == t@))),
        r matches Ok(p) ==> (skip_count ==> p.1 == p.0@.len()),
{
    let _ = schema_family.try_get_schema(child_table)?;
    let np = parent_info.len();
    let mut i: usize = 0;
    while i < np
        invariant
            0 <= i <= np,
            np == parent_info@.len(),
            schema_family.wf(),
            forall|j: int|
                0 <= j < i ==> parenthood_ok(
                    *schema_family,
                    child_table@,
                    (#[trigger] parent_info@[j]).0@,
                    vals_model(parent_info@[j].1@),
                ),
        decreases np - i,
    {
        match verify_parenthood(
            schema_family,
            child_table,
            parent_info[i].0.as_str(),
            parent_info[i].1.as_slice(),
        ) {
            Ok(()) => {},
            Err(e) => {
                proof {
                    assert(parent_info@[i as int].0@ == parent_info[i as int].0@);
                }
                return Err(e);
            },
        }
        i = i + 1;
    }
    let where_config = match &fetch_config_opt {
        Some(cfg) => cfg.where_config,
        None => None,
    };
    let combined_q_config = match get_fk_union_config(schema_family, parent_info, where_config) {
        Ok(c) => c,
        Err(e) => {
            proof {
                assert(false);
            }
            return Err(e);
        },
    };
    let updated = with_where(fetch_config_opt, &combined_q_config);
    proof {
        assert(display_cols_of(Some(updated)) == display_cols_of(fetch_config_opt));
        assert(must_check_cols(Some(updated)) == must_check_cols(fetch_config_opt));
        assert(all_inputs_ok(*schema_family, child_table@, Some(updated)) == all_inputs_ok(
            *schema_family,
            child_table@,
            fetch_config_opt,
        ));
        assert(group_by_of(Some(updated)) == group_by_of(fetch_config_opt));
        assert(order_by_of(Some(updated)) == order_by_of(fetch_config_opt));
    }
    all(conn, schema_family, child_table, Some(updated), skip_count)
}

/// A read by peers passes validation: the source table exists and has a
/// junction table, and each supplied peer table exists and has one too.
pub open spec fn peers_inputs_ok(
    f: SchemaFamily,
    source: Seq<char>,
    peer_config: Seq<(String, Vec<DbValue>)>,
) -> bool {
    &&& has_key(f.map@, source)
    &&& has_key(f.peer_link_tables@, source)
    &&& forall|i: int|
        0 <= i < peer_config.len() ==> has_key(f.map@, (#[trigger] peer_config[i]).0@) && has_key(
            f.peer_link_tables@,
            peer_config[i].0@,
        )
}

/// Read the records of a table that are peers of the supplied records,
/// through the junction table: an `EXISTS` correlated subquery over the
/// junction merged with the caller's own condition.
pub fn peers_of(
    conn: &rusqlite::Connection,
    schema_family: &SchemaFamily,
    source_table: &str,
    peer_config: &Vec<(String, Vec<DbValue>)>,
    fetch_config_opt: Option<FetchConfig>,
    skip_count: bool,
) -> (r: Result<(RecordListOwned, u64), StoreError>)
    requires
        schema_family.wf(),
    ensures
        r is Ok ==> peers_inputs_ok(*schema_family, source_table@, peer_config@),
        (peers_inputs_ok(*schema_family, source_table@, peer_config@) && all_inputs_ok(
            *schema_family,
            source_table@,
            fetch_config_opt,
        )) ==> (r is Ok || (r matches Err(e) && (e is IllegalByChars || e is Db))),
        !(peers_inputs_ok(*schema_family, source_table@, peer_config@) && all_inputs_ok(
            *schema_family,
            source_table@,
            fetch_config_opt,
        )) ==> (r matches Err(e) && !(e is Db) && !(e is IllegalByChars)),
        r matches Err(e) ==> (read_err_cause(*schema_family, source_table@, fetch_config_opt, e)
            || (e matches StoreError::NoPeerLinkTable { table: t } && !has_key(
            schema_family.peer_link_tables@,
            t@,
        ) && (t@ == source_table@ || (exists|i: int|
            0 <= i < peer_config@.len() && (#[trigger] peer_config@[i]).0@ == t@))) || (e matches
        StoreError::TableNotFound { table: t } && !has_key(schema_family.map@, t@) && (exists|
            i: int,
        |
            0 <= i < peer_config@.len() && (#[trigger] peer_config@[i]).0@ == t@))),
        r matches Ok(p) ==> (skip_count ==> p.1 == p.0@.len()),
{
    let where_config = match &fetch_config_opt {
        Some(cfg) => cfg.where_config,
        None => None,
    };
    let rel_table = match schema_family.try_get_peer_link_table_of(source_table) {
        Ok(t) => t,
        Err(e) => {
            return Err(e);
        },
    };
    let np = peer_config.len();
    let mut i: usize = 0;
    while i < np
        invariant
            0 <= i <= np,
            np == peer_config@.len(),
            schema_family.wf(),
            forall|j: int|
                0 <= j < i ==> has_key(schema_family.map@, (#[trigger] peer_config@[j]).0@)
                    && has_key(schema_family.peer_link_tables@, peer_config@[j].0@),
        decreases np - i,
    {
        match schema_family.try_get_schema(peer_config[i].0.as_str()) {
            Ok(_) => {},
            Err(e) => {
                proof {
                    assert(peer_config@[i as int].0@ == peer_config[i as int].0@);
                }
                return Err(e);
            },
        }
        match schema_family.try_get_peer_link_table_of(peer_config[i].0.as_str()) {
            Ok(_) => {},
            Err(e) => {
                proof {
                    assert(peer_config@[i as int].0@ == peer_config[i as int].0@);
                }
                return Err(e);
            },
        }
        i = i + 1;
    }
    let fk_union_config = match get_fk_union_config(schema_family, peer_config, where_config) {
        Ok(c) => c,
        Err(e) => {
            proof {
                assert(false);
            }
            return Err(e);
        },
    };
    let source_fk_name = match crate::verify::get_fk_name(source_table, schema_family) {
        Ok(s) => s,
        Err(e) => {
            return Err(e);
        },
    };
    let schema = schema_family.try_get_schema(source_table)?;
    let matching_clause = crate::peer::peer_matching_clause(
        rel_table,
        source_fk_name.as_str(),
        (source_table, schema.pk.as_str()),
        fk_union_config.0.as_str(),
    );
    let combined = merge_q_configs(
        Some((matching_clause.as_str(), fk_union_config.1.as_slice())),
        where_config,
        "AND",
    );
    let fetch = with_where(fetch_config_opt, &combined);
    proof {
        assert(display_cols_of(Some(fetch)) == display_cols_of(fetch_config_opt));
        assert(must_check_cols(Some(fetch)) == must_check_cols(fetch_config_opt));
        assert(all_inputs_ok(*schema_family, source_table@, Some(fetch)) == all_inputs_ok(
            *schema_family,
            source_table@,
            fetch_config_opt,
        ));
        assert(group_by_of(Some(fetch)) == group_by_of(fetch_config_opt));
        assert(order_by_of(Some(fetch)) == order_by_of(fetch_config_opt));
    }
    all(conn, schema_family, source_table, Some(fetch), skip_count)
}

/// The inputs of a keyword search over one text column of a table.
pub struct SearchConfig {
    /// The table to search.
    pub table: String,
    /// The text column to match.
    pub col: String,
    /// The keyword to look for.
    pub keyword: String,
    /// Match the whole value instead of a substring.
    pub exact: Option<bool>,
}

/// A search passes validation: the table exists and the named column is a
/// declared text column.
pub open spec fn search_inputs_ok(f: SchemaFamily, table: Seq<char>, col: Seq<char>) -> bool {
    &&& has_key(f.map@, table)
    &&& crate::assoc::lookup(the_schema(f, table).types@, col) == Some(
        crate::value::DbType::Text,
    )
}

/// Build the where-condition of a keyword search: `col = ?` for an exact
/// search, else a `LIKE` over the keyword as a substring, the keyword
/// always bound as a parameter. A search over a non-text column is
/// refused.
pub fn search_condition(schema_family: &SchemaFamily, config: &SearchConfig) -> (r: Result<
    WhereConfigOwned,
    StoreError,
>)
    requires
        schema_family.wf(),
    ensures
        r is Ok <==> search_inputs_ok(*schema_family, config.table@, config.col@),
        r matches Ok(c) ==> ({
            &&& (config.exact == Some(true) ==> c.0@ == config.col@ + " = ?"@)
            &&& (config.exact != Some(true) ==> c.0@ == config.col@ + " like '%'||?||'%'"@)
            &&& vals_model(c.1@) =~= seq![DbVal::Text(config.keyword@)]
        }),
        r matches Err(e) ==> (e is TableNotFound || e is NotTextColumn),
{
    let schema = schema_family.try_get_schema(config.table.as_str())?;
    let is_text = match crate::assoc::assoc_get(&schema.types, config.col.as_str()) {
        Some(t) => *t == crate::value::DbType::Text,
        None => false,
    };
    if !is_text {
        return Err(
            StoreError::NotTextColumn { table: config.table.clone(), column: config.col.clone() },
        );
    }
    let exact = match config.exact {
        Some(b) => b,
        None => false,
    };
    let mut clause = config.col.clone();
    if exact {
        clause.append(" = ?");
    } else {
        clause.append(" like '%'||?||'%'");
    }
    let mut params: Vec<DbValue> = Vec::new();
    params.push(DbValue::Text(config.keyword.clone()));
    Ok((clause, params))
}

} // verus!
