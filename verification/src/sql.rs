//! Pure, stateless composition of WHERE-clause fragments and their
//! positional parameters. Nothing here touches the database: every function
//! returns a clause string together with the parameters that belong to it,
//! and the contracts pin the exact text produced.

use vstd::prelude::*;

use crate::error::StoreError;
use crate::strutil::is_blank_text;
use crate::value::{DbVal, DbValue};

verus! {

/// A borrowed where-condition: a clause and its positional parameters.
pub type WhereConfig<'a> = (&'a str, &'a [DbValue]);

/// The owned variant of [`WhereConfig`], used for composition results.
pub type WhereConfigOwned = (String, Vec<DbValue>);

/// The models of a sequence of values.
pub open spec fn vals_model(s: Seq<DbValue>) -> Seq<DbVal> {
    s.map_values(|v: DbValue| v@)
}

/// Copy a slice of values.
pub fn vals_to_vec(v: &[DbValue]) -> (r: Vec<DbValue>)
    ensures
        vals_model(r@) == vals_model(v@),
{
    let mut out: Vec<DbValue> = Vec::new();
    let n = v.len();
    let mut i: usize = 0;
    while i < n
        invariant
            0 <= i <= n,
            n == v@.len(),
            out@.len() == i,
            forall|j: int| 0 <= j < i ==> out@[j]@ == v@[j]@,
        decreases n - i,
    {
        let val = v[i].clone();
        out.push(val);
        i = i + 1;
    }
    proof {
        assert(vals_model(out@) =~= vals_model(v@));
    }
    out
}

/// The `?, ?, …` list with one placeholder per value.
pub open spec fn in_placeholders(n: int) -> Seq<char>
    decreases n,
{
    if n <= 0 {
        Seq::empty()
    } else if n == 1 {
        "?"@
    } else {
        in_placeholders(n - 1) + ", ?"@
    }
}

/// The text of an `IN` condition over `n` values.
pub open spec fn in_clause_text(col: Seq<char>, n: int) -> Seq<char> {
    col + " IN ("@ + in_placeholders(n) + ")"@
}

/// Create a where clause requiring a column to be one of a list of values,
/// e.g. `id IN (?, ?, ?)`.
pub fn in_them_clause(col_name: &str, col_values: &[DbValue]) -> (r: String)
    ensures
        r@ == in_clause_text(col_name@, col_values@.len() as int),
{
    let n = col_values.len();
    let mut ph = String::new();
    let mut i: usize = 0;
    while i < n
        invariant
            0 <= i <= n,
            ph@ == in_placeholders(i as int),
        decreases n - i,
    {
        if i == 0 {
            ph.append("?");
            proof {
                assert(Seq::<char>::empty() + "?"@ =~= "?"@);
            }
        } else {
            ph.append(", ?");
        }
        i = i + 1;
    }
    let mut out = col_name.to_owned();
    out.append(" IN (");
    out.append(ph.as_str());
    out.append(")");
    out
}

/// The same condition together with its parameter list.
pub fn in_them(col_name: &str, col_values: &[DbValue]) -> (r: WhereConfigOwned)
    ensures
        r.0@ == in_clause_text(col_name@, col_values@.len() as int),
        vals_model(r.1@) == vals_model(col_values@),
{
    (in_them_clause(col_name, col_values), vals_to_vec(col_values))
}

/// A clause standardized for composition: a blank clause becomes empty, a
/// non-blank one is prefixed with the link word (when there is one).
pub open spec fn std_clause(clause: Seq<char>, link: Seq<char>) -> Seq<char> {
    if is_blank_text(clause) {
        Seq::empty()
    } else if link.len() == 0 {
        clause
    } else {
        link + " "@ + clause
    }
}

/// The parameters that survive standardization: none for a blank clause.
pub open spec fn std_params(clause: Seq<char>, params: Seq<DbVal>) -> Seq<DbVal> {
    if is_blank_text(clause) {
        Seq::empty()
    } else {
        params
    }
}

/// The clause of an optional condition; absent means blank.
pub open spec fn opt_clause(q: Option<(Seq<char>, Seq<DbVal>)>) -> Seq<char> {
    match q {
        None => Seq::empty(),
        Some(c) => c.0,
    }
}

/// The parameters of an optional condition; absent means none.
pub open spec fn opt_params(q: Option<(Seq<char>, Seq<DbVal>)>) -> Seq<DbVal> {
    match q {
        None => Seq::empty(),
        Some(c) => c.1,
    }
}

/// The model of an optional borrowed condition.
pub open spec fn cfg_model(q: Option<(&str, &[DbValue])>) -> Option<(Seq<char>, Seq<DbVal>)> {
    match q {
        None => None,
        Some(c) => Some((c.0@, vals_model(c.1@))),
    }
}

/// Standardize a where clause and its parameters: an absent or blank clause
/// becomes the empty clause with no parameters, never an invalid fragment;
/// a non-empty clause is prefixed with `link_word` (e.g. `"AND"`, `"WHERE"`).
pub fn standardize_q_config(q_config: Option<WhereConfig>, link_word: &str) -> (r:
    WhereConfigOwned)
    ensures
        r.0@ == std_clause(opt_clause(cfg_model(q_config)), link_word@),
        vals_model(r.1@) == std_params(
            opt_clause(cfg_model(q_config)),
            opt_params(cfg_model(q_config)),
        ),
{
    proof {
        assert(vals_model(Seq::<DbValue>::empty()) =~= Seq::<DbVal>::empty());
    }
    match q_config {
        Some((clause, params)) => {
            if crate::strutil::check_blank_text(clause) {
                (String::new(), Vec::new())
            } else if link_word.is_empty() {
                (clause.to_owned(), vals_to_vec(params))
            } else {
                let mut out = link_word.to_owned();
                out.append(" ");
                out.append(clause);
                (out, vals_to_vec(params))
            }
        },
        None => (String::new(), Vec::new()),
    }
}

/// The text of two standardized clauses merged under one pair of
/// parentheses.
pub open spec fn merged_clause_text(c1: Seq<char>, c2: Seq<char>, link: Seq<char>) -> Seq<char> {
    "("@ + std_clause(c1, Seq::empty()) + " "@ + std_clause(c2, link) + ")"@
}

/// The parameters of two merged conditions, in order.
pub open spec fn merged_params(
    c1: Seq<char>,
    p1: Seq<DbVal>,
    c2: Seq<char>,
    p2: Seq<DbVal>,
) -> Seq<DbVal> {
    std_params(c1, p1) + std_params(c2, p2)
}

/// Merge two where clauses into `(clause1 link_word clause2)`, with the
/// parameters concatenated in order. The parentheses keep precedence intact
/// under repeated merges.
pub fn merge_q_configs(
    q_config1: Option<WhereConfig>,
    q_config2: Option<WhereConfig>,
    link_word: &str,
) -> (r: WhereConfigOwned)
    ensures
        r.0@ == merged_clause_text(
            opt_clause(cfg_model(q_config1)),
            opt_clause(cfg_model(q_config2)),
            link_word@,
        ),
        vals_model(r.1@) == merged_params(
            opt_clause(cfg_model(q_config1)),
            opt_params(cfg_model(q_config1)),
            opt_clause(cfg_model(q_config2)),
            opt_params(cfg_model(q_config2)),
        ),
{
    proof {
        reveal_strlit("");
        assert(""@ =~= Seq::<char>::empty());
    }
    let (clause1, params1) = standardize_q_config(q_config1, "");
    let (clause2, params2) = standardize_q_config(q_config2, link_word);
    let mut out = String::new();
    out.append("(");
    out.append(clause1.as_str());
    out.append(" ");
    out.append(clause2.as_str());
    out.append(")");
    let mut params = params1;
    let mut rest = params2;
    let ghost p1 = params@;
    let ghost p2 = rest@;
    params.append(&mut rest);
    proof {
        assert(Seq::<char>::empty() + "("@ =~= "("@);
        assert(vals_model(params@) =~= vals_model(p1) + vals_model(p2));
        let c2s = std_clause(opt_clause(cfg_model(q_config2)), link_word@);
        if is_blank_text(opt_clause(cfg_model(q_config2))) {
            assert(std_params(c2s, vals_model(p2)) =~= Seq::<DbVal>::empty());
        }
    }
    (out, params)
}

/// The union clause and parameters accumulated over the first `k` parent
/// groups: each group contributes an `IN` condition on its foreign-key
/// column, merged onto the rest under `OR`.
pub open spec fn fk_union_acc(
    f: crate::family::SchemaFamily,
    entries: Seq<(String, Vec<DbValue>)>,
    k: int,
) -> (Seq<char>, Seq<DbVal>)
    decreases k,
{
    if k <= 0 {
        (Seq::empty(), Seq::empty())
    } else {
        let prev = fk_union_acc(f, entries, k - 1);
        let e = entries[k - 1];
        let fkn = crate::resolve::fk_col_of(e.0@, crate::verify::the_schema(f, e.0@).pk@);
        let inc = in_clause_text(fkn, e.1@.len() as int);
        (
            merged_clause_text(inc, prev.0, "OR"@),
            merged_params(inc, vals_model(e.1@), prev.0, prev.1),
        )
    }
}

/// Build the query condition matching children of any of several parent
/// groups: `(parent1_fk IN (…) OR parent2_fk IN (…) OR …)`, and AND the
/// result with the extra condition. Each named parent must be a table of
/// the family.
#[verifier::loop_isolation(false)]
pub fn get_fk_union_config(
    schema_family: &crate::family::SchemaFamily,
    link_config: &Vec<(String, Vec<DbValue>)>,
    where_config: Option<WhereConfig>,
) -> (r: Result<WhereConfigOwned, StoreError>)
    ensures
        r is Ok <==> (forall|i: int|
            0 <= i < link_config@.len() ==> crate::assoc::has_key(
                schema_family.map@,
                (#[trigger] link_config@[i]).0@,
            )),
        r matches Ok(c) ==> ({
            let acc = fk_union_acc(*schema_family, link_config@, link_config@.len() as int);
            &&& c.0@ == merged_clause_text(acc.0, opt_clause(cfg_model(where_config)), "AND"@)
            &&& vals_model(c.1@) == merged_params(
                acc.0,
                acc.1,
                opt_clause(cfg_model(where_config)),
                opt_params(cfg_model(where_config)),
            )
        }),
        r matches Err(e) ==> e is TableNotFound,
{
    let mut combined: WhereConfigOwned = (String::new(), Vec::new());
    proof {
        assert(vals_model(Seq::<DbValue>::empty()) =~= Seq::<DbVal>::empty());
    }
    let n = link_config.len();
    let mut i: usize = 0;
    while i < n
        invariant
            0 <= i <= n,
            forall|j: int|
                0 <= j < i ==> crate::assoc::has_key(
                    schema_family.map@,
                    (#[trigger] link_config@[j]).0@,
                ),
            combined.0@ == fk_union_acc(*schema_family, link_config@, i as int).0,
            vals_model(combined.1@) == fk_union_acc(*schema_family, link_config@, i as int).1,
        decreases n - i,
    {
        let fk_main_table = &link_config[i].0;
        let fk_vals = &link_config[i].1;
        let fkn = match crate::verify::get_fk_name(fk_main_table.as_str(), schema_family) {
            Ok(s) => s,
            Err(e) => {
                return Err(e);
            },
        };
        let in_cfg = in_them(fkn.as_str(), fk_vals.as_slice());
        let merged = merge_q_configs(
            Some((in_cfg.0.as_str(), in_cfg.1.as_slice())),
            Some((combined.0.as_str(), combined.1.as_slice())),
            "OR",
        );
        proof {
            let e = link_config@[i as int];
            assert(fkn@ == crate::resolve::fk_col_of(
                e.0@,
                crate::verify::the_schema(*schema_family, e.0@).pk@,
            ));
            assert(in_cfg.0@ == in_clause_text(fkn@, e.1@.len() as int));
        }
        combined = merged;
        i = i + 1;
    }
    let out = merge_q_configs(
        Some((combined.0.as_str(), combined.1.as_slice())),
        where_config,
        "AND",
    );
    Ok(out)
}

/// An `IN` condition on a column merged with a further optional condition
/// under `AND`.
pub fn in_them_and(col_name: &str, col_values: &[DbValue], q_config: Option<WhereConfig>) -> (r:
    WhereConfigOwned)
    ensures
        r.0@ == merged_clause_text(
            in_clause_text(col_name@, col_values@.len() as int),
            opt_clause(cfg_model(q_config)),
            "AND"@,
        ),
        vals_model(r.1@) == merged_params(
            in_clause_text(col_name@, col_values@.len() as int),
            vals_model(col_values@),
            opt_clause(cfg_model(q_config)),
            opt_params(cfg_model(q_config)),
        ),
{
    let in_q_config = in_them(col_name, col_values);
    merge_q_configs(
        Some((in_q_config.0.as_str(), in_q_config.1.as_slice())),
        q_config,
        "AND",
    )
}

} // verus!
