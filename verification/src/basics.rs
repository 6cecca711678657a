//! The statement-level operations: assemble one SELECT, INSERT, UPDATE,
//! DELETE or COUNT statement out of verified fragments and run it. The
//! database decides what any query returns; these contracts pin the
//! store's own checks and say which errors are the store's and which are
//! the database's.

use vstd::prelude::*;

use crate::error::StoreError;
use crate::sql::{self, WhereConfig};
use crate::strutil::{
    contains_pair, i64_to_string, is_blank_text, remove_spaces, strip_spaces, text_has_pair,
    trim_str, trim_text,
};
use crate::value::{DbValue, RecordListOwned, RecordOwned};

verus! {

/// Check whether a value is empty: SQL NULL, a blank text, or an empty
/// blob.
pub fn is_empty(val1: &DbValue) -> (r: bool)
    ensures
        r == val1@.is_empty_val(),
{
    val1.empty_check()
}

/// Configuration for fetching records: distinct flag, display-column
/// allowlist, where-condition, ordering, grouping, and pagination — all
/// optional and composed independently.
#[derive(Clone, Copy)]
pub struct FetchConfig<'a> {
    /// Use the DISTINCT keyword.
    pub is_distinct: bool,
    /// The columns to return; all columns when absent.
    pub display_cols: Option<&'a [&'a str]>,
    /// The where clause and its parameters.
    pub where_config: Option<WhereConfig<'a>>,
    /// The ORDER BY fragment.
    pub order_by: Option<&'a str>,
    /// The LIMIT row count.
    pub limit: Option<i64>,
    /// The OFFSET row count.
    pub offset: Option<i64>,
    /// The GROUP BY fragment.
    pub group_by: Option<&'a str>,
}

/// Configuration for counting records.
#[derive(Clone, Copy)]
pub struct CountConfig<'a> {
    /// Count distinct values of this column instead of rows.
    pub distinct_field: Option<&'a str>,
    /// The where clause and its parameters.
    pub where_config: Option<WhereConfig<'a>>,
}

/// The characters refused outright in an ordering or grouping fragment.
pub const ILLEGAL_BY_CHARS: [char; 16] = [
    '@', '!', '#', '$', '%', '^', '&', '*', '=', '{', '}', '[', ']', '<', '>', '~',
];

/// A character that may not appear in an ordering or grouping fragment:
/// a control character or one of the refused special characters.
pub open spec fn is_illegal_by_char(c: char) -> bool {
    ||| c == '\n'
    ||| c == '\r'
    ||| c == '\t'
    ||| c == '@'
    ||| c == '!'
    ||| c == '#'
    ||| c == '$'
    ||| c == '%'
    ||| c == '^'
    ||| c == '&'
    ||| c == '*'
    ||| c == '='
    ||| c == '{'
    ||| c == '}'
    ||| c == '['
    ||| c == ']'
    ||| c == '<'
    ||| c == '>'
    ||| c == '~'
}

/// A fragment is refused when it holds an illegal character or a comment
/// sequence.
pub open spec fn illegal_by_text(s: Seq<char>) -> bool {
    ||| exists|i: int| 0 <= i < s.len() && is_illegal_by_char(#[trigger] s[i])
    ||| text_has_pair(s, '-', '-')
    ||| text_has_pair(s, '/', '*')
    ||| text_has_pair(s, '*', '/')
}

/// The ordering and grouping fragments cannot be parameterized by the
/// driver, so they pass through this denylist before being concatenated
/// into SQL text.
pub fn contains_illegal_by_chars(s: &str) -> (r: bool)
    ensures
        r == illegal_by_text(s@),
{
    let n = s.unicode_len();
    let mut i: usize = 0;
    while i < n
        invariant
            0 <= i <= n,
            n == s@.len(),
            forall|j: int| 0 <= j < i ==> !is_illegal_by_char(#[trigger] s@[j]),
        decreases n - i,
    {
        let c = s.get_char(i);
        if c == '\n' || c == '\r' || c == '\t' || c == '@' || c == '!' || c == '#' || c == '$'
            || c == '%' || c == '^' || c == '&' || c == '*' || c == '=' || c == '{' || c == '}'
            || c == '[' || c == ']' || c == '<' || c == '>' || c == '~' {
            return true;
        }
        i = i + 1;
    }
    contains_pair(s, '-', '-') || contains_pair(s, '/', '*') || contains_pair(s, '*', '/')
}

/// The GROUP BY fragment the fetch configuration produces.
pub open spec fn group_by_text(group_by: Option<&str>) -> Seq<char> {
    match group_by {
        Some(g) => " GROUP BY "@ + strip_spaces(g@),
        None => Seq::empty(),
    }
}

/// The ORDER BY fragment the fetch configuration produces.
pub open spec fn order_by_text(order_by: Option<&str>) -> Seq<char> {
    match order_by {
        Some(o) => " ORDER BY "@ + trim_text(o@),
        None => Seq::empty(),
    }
}

/// Whether the unparameterized fragments of a fetch configuration are
/// refused by the denylist.
pub open spec fn by_fragments_illegal(group_by: Option<&str>, order_by: Option<&str>) -> bool {
    illegal_by_text(group_by_text(group_by)) || illegal_by_text(order_by_text(order_by))
}

/// The display columns joined with commas, over the first `k` names.
pub open spec fn joined_cols(cols: Seq<&str>, k: int) -> Seq<char>
    decreases k,
{
    if k <= 0 {
        Seq::empty()
    } else if k == 1 {
        cols[0]@
    } else {
        joined_cols(cols, k - 1) + ", "@ + cols[k - 1]@
    }
}

/// The display-column list of a SELECT: the joined allowlist, or `*`.
pub open spec fn display_list_text(display: Option<&[&str]>) -> Seq<char> {
    match display {
        Some(cols) => if cols@.len() == 0 {
            "*"@
        } else {
            joined_cols(cols@, cols@.len() as int)
        },
        None => "*"@,
    }
}

/// The DISTINCT keyword, or nothing.
pub open spec fn distinct_text(d: bool) -> Seq<char> {
    if d {
        "DISTINCT"@
    } else {
        Seq::empty()
    }
}

/// The LIMIT fragment, or nothing.
pub open spec fn limit_text(l: Option<i64>) -> Seq<char> {
    match l {
        Some(x) => " LIMIT "@ + crate::strutil::dec_text(x as int),
        None => Seq::empty(),
    }
}

/// The OFFSET fragment, or nothing.
pub open spec fn offset_text(o: Option<i64>) -> Seq<char> {
    match o {
        Some(x) => " OFFSET "@ + crate::strutil::dec_text(x as int),
        None => Seq::empty(),
    }
}

/// The distinct flag of a fetch configuration.
pub open spec fn is_distinct_of(cfg: Option<FetchConfig>) -> bool {
    match cfg {
        Some(c) => c.is_distinct,
        None => false,
    }
}

/// The display columns of a fetch configuration.
pub open spec fn display_of(cfg: Option<FetchConfig>) -> Option<&[&str]> {
    match cfg {
        Some(c) => c.display_cols,
        None => None,
    }
}

/// The where-condition of a fetch configuration.
pub open spec fn where_of(cfg: Option<FetchConfig>) -> Option<WhereConfig> {
    match cfg {
        Some(c) => c.where_config,
        None => None,
    }
}

/// The limit of a fetch configuration.
pub open spec fn limit_of(cfg: Option<FetchConfig>) -> Option<i64> {
    match cfg {
        Some(c) => c.limit,
        None => None,
    }
}

/// The offset of a fetch configuration.
pub open spec fn offset_of(cfg: Option<FetchConfig>) -> Option<i64> {
    match cfg {
        Some(c) => c.offset,
        None => None,
    }
}

/// The group-by fragment of a fetch configuration.
pub open spec fn cfg_group_by(cfg: Option<FetchConfig>) -> Option<&str> {
    match cfg {
        Some(c) => c.group_by,
        None => None,
    }
}

/// The order-by fragment of a fetch configuration.
pub open spec fn cfg_order_by(cfg: Option<FetchConfig>) -> Option<&str> {
    match cfg {
        Some(c) => c.order_by,
        None => None,
    }
}

/// The text of the SELECT without ordering, grouping or pagination.
pub open spec fn select_core_text(table: Seq<char>, cfg: Option<FetchConfig>) -> Seq<char> {
    "SELECT "@ + distinct_text(is_distinct_of(cfg)) + " "@ + display_list_text(display_of(cfg))
        + " FROM "@ + table + " "@ + crate::sql::std_clause(
        crate::sql::opt_clause(crate::sql::cfg_model(where_of(cfg))),
        "WHERE"@,
    )
}

/// The text of the SELECT up to and including ordering and grouping.
pub open spec fn select_unpaged_text(table: Seq<char>, cfg: Option<FetchConfig>) -> Seq<char> {
    select_core_text(table, cfg) + group_by_text(cfg_group_by(cfg)) + order_by_text(
        cfg_order_by(cfg),
    )
}

/// The full text of the SELECT, pagination included.
pub open spec fn select_paged_text(table: Seq<char>, cfg: Option<FetchConfig>) -> Seq<char> {
    select_unpaged_text(table, cfg) + limit_text(limit_of(cfg)) + offset_text(offset_of(cfg))
}

/// Build the display-column fragment.
fn display_fragment(display: Option<&[&str]>) -> (r: String)
    ensures
        r@ == display_list_text(display),
{
    match display {
        Some(cols) => {
            let nc = cols.len();
            if nc == 0 {
                let mut star = String::new();
                star.append("*");
                proof {
                    assert(Seq::<char>::empty() + "*"@ =~= "*"@);
                }
                star
            } else {
                let mut joined = String::new();
                let mut ci: usize = 0;
                while ci < nc
                    invariant
                        0 <= ci <= nc,
                        nc == cols@.len(),
                        joined@ == joined_cols(cols@, ci as int),
                    decreases nc - ci,
                {
                    if ci > 0 {
                        joined.append(", ");
                    }
                    joined.append(cols[ci]);
                    proof {
                        if ci == 0 {
                            assert(Seq::<char>::empty() + cols@[0]@ =~= cols@[0]@);
                        }
                    }
                    ci = ci + 1;
                }
                joined
            }
        },
        None => {
            let mut star = String::new();
            star.append("*");
            proof {
                assert(Seq::<char>::empty() + "*"@ =~= "*"@);
            }
            star
        },
    }
}

/// Build the GROUP BY fragment, whitespace stripped out of the field.
fn group_fragment(group_by: Option<&str>) -> (r: String)
    ensures
        r@ == group_by_text(group_by),
{
    let mut out = String::new();
    match group_by {
        Some(field) => {
            out.append(" GROUP BY ");
            let stripped = remove_spaces(field);
            out.append(stripped.as_str());
            proof {
                assert(Seq::<char>::empty() + " GROUP BY "@ =~= " GROUP BY "@);
            }
        },
        None => {},
    }
    out
}

/// Build the ORDER BY fragment, the field trimmed.
fn order_fragment(order_by: Option<&str>) -> (r: String)
    ensures
        r@ == order_by_text(order_by),
{
    let mut out = String::new();
    match order_by {
        Some(field) => {
            out.append(" ORDER BY ");
            let trimmed = trim_str(field);
            out.append(trimmed.as_str());
            proof {
                assert(Seq::<char>::empty() + " ORDER BY "@ =~= " ORDER BY "@);
            }
        },
        None => {},
    }
    out
}

/// Build the LIMIT fragment.
fn limit_fragment(l: Option<i64>) -> (r: String)
    ensures
        r@ == limit_text(l),
{
    let mut out = String::new();
    match l {
        Some(x) => {
            out.append(" LIMIT ");
            let xs = i64_to_string(x);
            out.append(xs.as_str());
            proof {
                assert(Seq::<char>::empty() + " LIMIT "@ =~= " LIMIT "@);
            }
        },
        None => {},
    }
    out
}

/// Build the OFFSET fragment.
fn offset_fragment(o: Option<i64>) -> (r: String)
    ensures
        r@ == offset_text(o),
{
    let mut out = String::new();
    match o {
        Some(x) => {
            out.append(" OFFSET ");
            let xs = i64_to_string(x);
            out.append(xs.as_str());
            proof {
                assert(Seq::<char>::empty() + " OFFSET "@ =~= " OFFSET "@);
            }
        },
        None => {},
    }
    out
}

/// The statements a read runs: the paginated query, the same query without
/// pagination (for the total count), and the bound parameters.
pub struct ReadSql {
    /// The paginated SELECT.
    pub paged: String,
    /// The SELECT without LIMIT and OFFSET.
    pub unpaged: String,
    /// The positional parameters of both.
    pub params: Vec<DbValue>,
}

/// Assemble the SELECT statements of a read, character for character:
/// `SELECT [DISTINCT] cols FROM table [WHERE …][ GROUP BY …][ ORDER BY …]
/// [ LIMIT n][ OFFSET n]`, with the caller's condition parameterized and
/// the whitespace-stripped grouping and trimmed ordering fragments
/// concatenated as text.
pub fn build_read_sql(table_name: &str, fetch_config_opt: Option<FetchConfig>) -> (r: ReadSql)
    ensures
        r.paged@ == select_paged_text(table_name@, fetch_config_opt),
        r.unpaged@ == select_unpaged_text(table_name@, fetch_config_opt),
        crate::sql::vals_model(r.params@) == crate::sql::std_params(
            crate::sql::opt_clause(crate::sql::cfg_model(where_of(fetch_config_opt))),
            crate::sql::opt_params(crate::sql::cfg_model(where_of(fetch_config_opt))),
        ),
{
    let is_distinct = match &fetch_config_opt {
        Some(cfg) => cfg.is_distinct,
        None => false,
    };
    let display_cols: Option<&[&str]> = match &fetch_config_opt {
        Some(cfg) => cfg.display_cols,
        None => None,
    };
    let where_config = match fetch_config_opt {
        Some(cfg) => cfg.where_config,
        None => None,
    };
    let (where_q_clause, where_q_params) = sql::standardize_q_config(where_config, "WHERE");
    let mut sql = String::new();
    sql.append("SELECT ");
    if is_distinct {
        sql.append("DISTINCT");
    } else {
        proof {
            assert(sql@ + Seq::<char>::empty() =~= sql@);
        }
    }
    sql.append(" ");
    let display = display_fragment(display_cols);
    sql.append(display.as_str());
    sql.append(" FROM ");
    sql.append(table_name);
    sql.append(" ");
    sql.append(where_q_clause.as_str());
    proof {
        assert(sql@ == select_core_text(table_name@, fetch_config_opt));
    }
    let mut unpaged = sql;
    let gfrag = group_fragment(match &fetch_config_opt {
        Some(cfg) => cfg.group_by,
        None => None,
    });
    unpaged.append(gfrag.as_str());
    let ofrag = order_fragment(match &fetch_config_opt {
        Some(cfg) => cfg.order_by,
        None => None,
    });
    unpaged.append(ofrag.as_str());
    let mut paged = unpaged.clone();
    let lfrag = limit_fragment(match &fetch_config_opt {
        Some(cfg) => cfg.limit,
        None => None,
    });
    paged.append(lfrag.as_str());
    let ffrag = offset_fragment(match &fetch_config_opt {
        Some(cfg) => cfg.offset,
        None => None,
    });
    paged.append(ffrag.as_str());
    ReadSql { paged, unpaged, params: where_q_params }
}

/// Fetch all matching records, together with the total count of matching
/// rows (useful for pagination); with `skip_count` the count is simply the
/// number of returned records. The rows are whatever the database holds;
/// the denylist on the ordering and grouping fragments is the store's own
/// check and fails before anything runs.
pub fn read_with_total(
    conn: &rusqlite::Connection,
    table_name: &str,
    fetch_config_opt: Option<FetchConfig>,
    skip_count: bool,
) -> (r: Result<(RecordListOwned, u64), StoreError>)
    ensures
        ({
            let gb = match fetch_config_opt {
                Some(cfg) => cfg.group_by,
                None => None,
            };
            let ob = match fetch_config_opt {
                Some(cfg) => cfg.order_by,
                None => None,
            };
            &&& (r matches Err(e) ==> (e is Db || (e matches StoreError::IllegalByChars {
                clause,
            } && illegal_by_text(clause@) && (clause@ == group_by_text(gb) || clause@
                == order_by_text(ob)))))
            &&& (by_fragments_illegal(gb, ob) ==> (r matches Err(e) && e is IllegalByChars))
            &&& (!by_fragments_illegal(gb, ob) ==> (r is Ok || (r matches Err(e) && e is Db)))
            &&& (r matches Ok(p) ==> (skip_count ==> p.1 == p.0@.len()))
        }),
{
    let group_by = group_fragment(match &fetch_config_opt {
        Some(cfg) => cfg.group_by,
        None => None,
    });
    let order_by = order_fragment(match &fetch_config_opt {
        Some(cfg) => cfg.order_by,
        None => None,
    });
    if contains_illegal_by_chars(group_by.as_str()) {
        return Err(StoreError::IllegalByChars { clause: group_by });
    }
    if contains_illegal_by_chars(order_by.as_str()) {
        return Err(StoreError::IllegalByChars { clause: order_by });
    }
    let stmts = build_read_sql(table_name, fetch_config_opt);
    let result = match crate::db::db_query_rows(conn, stmts.paged.as_str(), &stmts.params) {
        Ok(rows) => rows,
        Err(msg) => {
            return Err(StoreError::Db { message: msg });
        },
    };
    if skip_count {
        let total = result.len() as u64;
        return Ok((result, total));
    }
    let mut total_sql = String::new();
    total_sql.append("SELECT COUNT(*) FROM (");
    total_sql.append(stmts.unpaged.as_str());
    total_sql.append(")");
    let count = match crate::db::db_query_i64(conn, total_sql.as_str(), &stmts.params) {
        Ok(c) => c,
        Err(msg) => {
            return Err(StoreError::Db { message: msg });
        },
    };
    let total: u64 = if count < 0 {
        0
    } else {
        count as u64
    };
    Ok((result, total))
}

/// Fetch all matching records.
pub fn read(
    conn: &rusqlite::Connection,
    table_name: &str,
    fetch_config_opt: Option<FetchConfig>,
) -> (r: Result<RecordListOwned, StoreError>)
    ensures
        ({
            let gb = match fetch_config_opt {
                Some(cfg) => cfg.group_by,
                None => None,
            };
            let ob = match fetch_config_opt {
                Some(cfg) => cfg.order_by,
                None => None,
            };
            &&& (r matches Err(e) ==> (e is Db || (e matches StoreError::IllegalByChars {
                clause,
            } && illegal_by_text(clause@) && (clause@ == group_by_text(gb) || clause@
                == order_by_text(ob)))))
            &&& (by_fragments_illegal(gb, ob) ==> (r matches Err(e) && e is IllegalByChars))
            &&& (!by_fragments_illegal(gb, ob) ==> (r is Ok || (r matches Err(e) && e is Db)))
        }),
{
    match read_with_total(conn, table_name, fetch_config_opt, true) {
        Ok((rows, _)) => Ok(rows),
        Err(e) => Err(e),
    }
}

/// The record's column names joined with commas, over the first `k`
/// entries.
pub open spec fn joined_keys(rec: Seq<(String, DbValue)>, k: int) -> Seq<char>
    decreases k,
{
    if k <= 0 {
        Seq::empty()
    } else if k == 1 {
        rec[0].0@
    } else {
        joined_keys(rec, k - 1) + ", "@ + rec[k - 1].0@
    }
}

/// The record's `name = ?` assignments joined with commas, over the first
/// `k` entries.
pub open spec fn joined_assignments(rec: Seq<(String, DbValue)>, k: int) -> Seq<char>
    decreases k,
{
    if k <= 0 {
        Seq::empty()
    } else if k == 1 {
        rec[0].0@ + " = ?"@
    } else {
        joined_assignments(rec, k - 1) + ", "@ + rec[k - 1].0@ + " = ?"@
    }
}

/// The text of the INSERT for a record: every column named, every value a
/// placeholder.
pub open spec fn insert_text(table: Seq<char>, rec: Seq<(String, DbValue)>) -> Seq<char> {
    "INSERT INTO "@ + table + " ("@ + joined_keys(rec, rec.len() as int) + ") VALUES ("@
        + crate::sql::in_placeholders(rec.len() as int) + ")"@
}

/// The text of the UPDATE for a record and a standardized condition.
pub open spec fn update_text(
    table: Seq<char>,
    rec: Seq<(String, DbValue)>,
    where_clause: Seq<char>,
) -> Seq<char> {
    "UPDATE "@ + table + " SET "@ + joined_assignments(rec, rec.len() as int) + " "@
        + crate::sql::std_clause(where_clause, "WHERE"@)
}

/// Assemble the INSERT statement of a record, character for character,
/// with every value bound as a positional parameter in record order.
#[verifier::loop_isolation(false)]
pub fn build_insert_sql(table_name: &str, input: &RecordOwned) -> (r: (String, Vec<DbValue>))
    ensures
        r.0@ == insert_text(table_name@, input@),
        crate::sql::vals_model(r.1@) =~= input@.map_values(|p: (String, DbValue)| p.1@),
{
    let mut columns = String::new();
    let mut values = String::new();
    let mut params: Vec<DbValue> = Vec::new();
    let n = input.len();
    let mut i: usize = 0;
    while i < n
        invariant
            0 <= i <= n,
            columns@ == joined_keys(input@, i as int),
            values@ == crate::sql::in_placeholders(i as int),
            params@.len() == i,
            forall|j: int| 0 <= j < i ==> params@[j]@ == input@[j].1@,
        decreases n - i,
    {
        if i > 0 {
            columns.append(", ");
            values.append(", ?");
        } else {
            values.append("?");
        }
        columns.append(input[i].0.as_str());
        proof {
            if i == 0 {
                assert(Seq::<char>::empty() + input@[0].0@ =~= input@[0].0@);
                assert(Seq::<char>::empty() + "?"@ =~= "?"@);
            }
        }
        let v = input[i].1.clone();
        params.push(v);
        i = i + 1;
    }
    let mut sql = String::new();
    sql.append("INSERT INTO ");
    sql.append(table_name);
    sql.append(" (");
    sql.append(columns.as_str());
    sql.append(") VALUES (");
    sql.append(values.as_str());
    sql.append(")");
    proof {
        assert(crate::sql::vals_model(params@) =~= input@.map_values(
            |p: (String, DbValue)| p.1@,
        ));
    }
    (sql, params)
}

/// Assemble the UPDATE statement of a record and a condition, character
/// for character, the set values bound first and the condition's
/// parameters after them.
#[verifier::loop_isolation(false)]
pub fn build_update_sql(table_name: &str, input: &RecordOwned, where_config: WhereConfig) -> (r:
    (String, Vec<DbValue>))
    ensures
        r.0@ == update_text(table_name@, input@, where_config.0@),
        crate::sql::vals_model(r.1@) =~= input@.map_values(|p: (String, DbValue)| p.1@)
            + crate::sql::std_params(
            where_config.0@,
            crate::sql::vals_model(where_config.1@),
        ),
{
    let mut set_clause = String::new();
    let mut set_params: Vec<DbValue> = Vec::new();
    let n = input.len();
    let mut i: usize = 0;
    while i < n
        invariant
            0 <= i <= n,
            set_clause@ == joined_assignments(input@, i as int),
            set_params@.len() == i,
            forall|j: int| 0 <= j < i ==> set_params@[j]@ == input@[j].1@,
        decreases n - i,
    {
        if i > 0 {
            set_clause.append(", ");
        }
        set_clause.append(input[i].0.as_str());
        set_clause.append(" = ?");
        proof {
            if i == 0 {
                assert(Seq::<char>::empty() + input@[0].0@ =~= input@[0].0@);
            }
        }
        let v = input[i].1.clone();
        set_params.push(v);
        i = i + 1;
    }
    let (where_clause, where_params) = sql::standardize_q_config(Some(where_config), "WHERE");
    let mut params = set_params;
    let mut rest = where_params;
    let ghost p1 = params@;
    let ghost p2 = rest@;
    params.append(&mut rest);
    let mut sql = String::new();
    sql.append("UPDATE ");
    sql.append(table_name);
    sql.append(" SET ");
    sql.append(set_clause.as_str());
    sql.append(" ");
    sql.append(where_clause.as_str());
    proof {
        assert(crate::sql::vals_model(params@) =~= crate::sql::vals_model(p1)
            + crate::sql::vals_model(p2));
        assert(crate::sql::vals_model(p1) =~= input@.map_values(|p: (String, DbValue)| p.1@));
    }
    (sql, params)
}

/// Insert one record: every column of the record is named and every value
/// is bound as a parameter. What the database makes of it is its own to
/// report.
pub fn insert(conn: &rusqlite::Connection, table_name: &str, input: &RecordOwned) -> (r: Result<
    (),
    StoreError,
>)
    ensures
        r matches Err(e) ==> e is Db,
{
    let (sql, params) = build_insert_sql(table_name, input);
    match crate::db::db_execute(conn, sql.as_str(), &params) {
        Ok(_) => Ok(()),
        Err(msg) => Err(StoreError::Db { message: msg }),
    }
}

/// Delete every record matching the condition. To reduce the chance of an
/// unwanted mass deletion, a blank where clause is refused rather than run
/// unconditionally.
pub fn del(conn: &rusqlite::Connection, table_name: &str, where_config: WhereConfig) -> (r: Result<
    (),
    StoreError,
>)
    ensures
        is_blank_text(where_config.0@) <==> (r matches Err(e) && e is EmptyWhereClause),
        r matches Err(e) ==> e is EmptyWhereClause || e is Db,
{
    match crate::verify::verify_where_clause(where_config.0) {
        Ok(()) => {},
        Err(e) => {
            return Err(e);
        },
    }
    let (where_clause, where_params) = sql::standardize_q_config(Some(where_config), "WHERE");
    let mut sql = String::new();
    sql.append("DELETE FROM ");
    sql.append(table_name);
    sql.append(" ");
    sql.append(where_clause.as_str());
    match crate::db::db_execute(conn, sql.as_str(), &where_params) {
        Ok(_) => Ok(()),
        Err(msg) => Err(StoreError::Db { message: msg }),
    }
}

/// Update every record matching the condition with the given values. As
/// with [`del`], a blank where clause is refused.
pub fn update(
    conn: &rusqlite::Connection,
    table_name: &str,
    input: &RecordOwned,
    where_config: WhereConfig,
) -> (r: Result<(), StoreError>)
    ensures
        is_blank_text(where_config.0@) <==> (r matches Err(e) && e is EmptyWhereClause),
        r matches Err(e) ==> e is EmptyWhereClause || e is Db,
{
    match crate::verify::verify_where_clause(where_config.0) {
        Ok(()) => {},
        Err(e) => {
            return Err(e);
        },
    }
    let (sql, params) = build_update_sql(table_name, input, where_config);
    match crate::db::db_execute(conn, sql.as_str(), &params) {
        Ok(_) => Ok(()),
        Err(msg) => Err(StoreError::Db { message: msg }),
    }
}

/// The counted expression of a COUNT statement: one column's distinct
/// values, or every row.
pub open spec fn count_target_text(distinct_field: Option<&str>) -> Seq<char> {
    match distinct_field {
        Some(f) => "DISTINCT "@ + f@,
        None => "*"@,
    }
}

/// The full text of a COUNT statement.
pub open spec fn count_text(
    table: Seq<char>,
    distinct_field: Option<&str>,
    where_config: Option<WhereConfig>,
) -> Seq<char> {
    "SELECT COUNT("@ + count_target_text(distinct_field) + ") FROM "@ + table + " "@
        + crate::sql::std_clause(
        crate::sql::opt_clause(crate::sql::cfg_model(where_config)),
        "WHERE"@,
    )
}

/// Assemble the COUNT statement, character for character, with the
/// caller's condition parameterized.
pub fn build_count_sql(
    table_name: &str,
    distinct_field: Option<&str>,
    where_config: Option<WhereConfig>,
) -> (r: (String, Vec<DbValue>))
    ensures
        r.0@ == count_text(table_name@, distinct_field, where_config),
        crate::sql::vals_model(r.1@) == crate::sql::std_params(
            crate::sql::opt_clause(crate::sql::cfg_model(where_config)),
            crate::sql::opt_params(crate::sql::cfg_model(where_config)),
        ),
{
    let mut sql = String::new();
    sql.append("SELECT COUNT(");
    match distinct_field {
        Some(field) => {
            sql.append("DISTINCT ");
            sql.append(field);
        },
        None => {
            sql.append("*");
        },
    }
    sql.append(") FROM ");
    sql.append(table_name);
    let (where_q_clause, where_q_params) = sql::standardize_q_config(where_config, "WHERE");
    sql.append(" ");
    sql.append(where_q_clause.as_str());
    (sql, where_q_params)
}

/// Count the matching records, or the distinct values of one column.
pub fn total(
    conn: &rusqlite::Connection,
    table_name: &str,
    distinct_field: Option<&str>,
    where_config: Option<WhereConfig>,
) -> (r: Result<i64, StoreError>)
    ensures
        r matches Err(e) ==> e is Db,
{
    let (sql, params) = build_count_sql(table_name, distinct_field, where_config);
    match crate::db::db_query_i64(conn, sql.as_str(), &params) {
        Ok(c) => Ok(c),
        Err(msg) => Err(StoreError::Db { message: msg }),
    }
}

} // verus!
