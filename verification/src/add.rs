//! Creation of records: verify and normalize the payload in full-column
//! mode, then insert; optionally first validate each parent reference and
//! inject its foreign-key value into the payload.

use vstd::prelude::*;

use crate::assoc::{
    has_key, keys_distinct, lemma_lookup_exists, lemma_lookup_index, lemma_lookup_push,
    lemma_lookup_some_index, lemma_lookup_update, lookup,
};
use crate::error::StoreError;
use crate::family::SchemaFamily;
use crate::resolve::fk_col_of;
use crate::value::{DbVal, DbValue, RecordOwned};
use crate::verify::{
    absent_ok, col_err_cause, entry_ok, get_verified_input, normalized_val, parenthood_ok,
    payload_ok, the_schema, verify_parenthood, write_err_cause, VerifyConf,
};

verus! {

/// Create a new record: the payload is verified and normalized in
/// full-column mode — every schema column ends up present, every required
/// column non-empty — and then inserted.
pub fn create(
    conn: &rusqlite::Connection,
    schema_family: &SchemaFamily,
    table: &str,
    input: &RecordOwned,
    default_if_absent: bool,
) -> (r: Result<(), StoreError>)
    requires
        schema_family.wf(),
        keys_distinct(input@),
    ensures
        r is Ok ==> payload_ok(*schema_family, table@, input@, default_if_absent, true),
        !payload_ok(*schema_family, table@, input@, default_if_absent, true) ==> (r matches Err(e)
            && !(e is Db)),
        r matches Err(e) ==> (write_err_cause(
            *schema_family,
            table@,
            input@,
            default_if_absent,
            true,
            e,
        ) || e is Db),
        payload_ok(*schema_family, table@, input@, default_if_absent, true) ==> (r is Ok || (
        r matches Err(e) && e is Db)),
{
    let verified_input = get_verified_input(
        schema_family,
        table,
        input,
        VerifyConf { default_if_absent, must_have_every_col: true },
    )?;
    crate::basics::insert(conn, table, &verified_input)
}

/// Every supplied parent reference is genuine parenthood with a key value
/// of the right type.
pub open spec fn parent_refs_ok(
    f: SchemaFamily,
    child: Seq<char>,
    parent_info: Seq<(String, DbValue)>,
) -> bool {
    forall|i: int|
        0 <= i < parent_info.len() ==> parenthood_ok(
            f,
            child,
            (#[trigger] parent_info[i]).0@,
            seq![parent_info[i].1@],
        )
}

/// The value a record binds to a column, as a model.
pub open spec fn rec_val(s: Seq<(String, DbValue)>, k: Seq<char>) -> Option<DbVal> {
    match lookup(s, k) {
        Some(v) => Some(v@),
        None => None,
    }
}

/// The foreign-key value the parent references inject for column `k`: the
/// last parent group whose canonical foreign-key column is `k` wins.
pub open spec fn fk_override(
    f: SchemaFamily,
    parent_info: Seq<(String, DbValue)>,
    k: Seq<char>,
) -> Option<DbVal>
    decreases parent_info.len(),
{
    if parent_info.len() == 0 {
        None
    } else {
        let last = parent_info.last();
        if fk_col_of(last.0@, the_schema(f, last.0@).pk@) == k {
            Some(last.1@)
        } else {
            fk_override(f, parent_info.drop_last(), k)
        }
    }
}

/// The value the combined child payload binds to column `k`: an injected
/// foreign-key value where one applies, else the caller's own value.
pub open spec fn child_val(
    f: SchemaFamily,
    input: Seq<(String, DbValue)>,
    parent_info: Seq<(String, DbValue)>,
    k: Seq<char>,
) -> Option<DbVal> {
    match fk_override(f, parent_info, k) {
        Some(v) => Some(v),
        None => rec_val(input, k),
    }
}

/// The combined child payload verifies in full-column mode: every bound
/// column passes the per-entry checks, and every schema column it leaves
/// out passes the full-column check.
pub open spec fn child_payload_ok(
    f: SchemaFamily,
    child: Seq<char>,
    input: Seq<(String, DbValue)>,
    parent_info: Seq<(String, DbValue)>,
    dia: bool,
) -> bool {
    let s = the_schema(f, child);
    &&& has_key(f.map@, child)
    &&& (forall|k: Seq<char>|
        (#[trigger] child_val(f, input, parent_info, k)) matches Some(v) ==> entry_ok(
            s,
            k,
            v,
            dia,
        ))
    &&& (forall|j: int|
        0 <= j < s.types@.len() ==> (child_val(f, input, parent_info, (#[trigger] s.types@[j]).0@)
            is None ==> absent_ok(s, s.types@[j].0@, dia)))
}

/// What a write-verification error of the combined child payload says of
/// its cause, over the caller's payload with the foreign keys injected.
pub open spec fn child_write_err_cause(
    f: SchemaFamily,
    child: Seq<char>,
    input: Seq<(String, DbValue)>,
    parent_info: Seq<(String, DbValue)>,
    dia: bool,
    e: StoreError,
) -> bool {
    let s = the_schema(f, child);
    match e {
        StoreError::TableNotFound { table: t } => t@ == child && !has_key(f.map@, child),
        StoreError::UnknownColumn { table: t, column: c } => t@ == child && child_val(
            f,
            input,
            parent_info,
            c@,
        ) is Some && !s.has_col(c@),
        StoreError::TypeMismatch { table: t, column: c, expected, actual } => t@ == child
            && lookup(s.types@, c@) == Some(expected) && (child_val(f, input, parent_info, c@)
            matches Some(v) && normalized_val(s, c@, v, dia).type_of() == actual) && actual
            != expected,
        StoreError::RequiredFieldMissing { table: t, column: c } => t@ == child
            && s.is_required_col(c@) && ((child_val(f, input, parent_info, c@) matches Some(v)
            && normalized_val(s, c@, v, dia).is_empty_val()) || (child_val(
            f,
            input,
            parent_info,
            c@,
        ) is None && has_key(s.types@, c@) && !absent_ok(s, c@, dia))),
        _ => false,
    }
}

/// Create a new record as a child of the given parent records: each parent
/// reference is validated, its foreign-key value is injected into the
/// payload (replacing any caller-supplied value for that column), and the
/// combined payload goes down the same create path.
pub fn create_child_of(
    conn: &rusqlite::Connection,
    schema_family: &SchemaFamily,
    child_table: &str,
    parent_info: &Vec<(String, DbValue)>,
    input: &RecordOwned,
    default_if_absent: bool,
) -> (r: Result<(), StoreError>)
    requires
        schema_family.wf(),
        keys_distinct(input@),
    ensures
        r is Ok ==> parent_refs_ok(*schema_family, child_table@, parent_info@)
            && child_payload_ok(
            *schema_family,
            child_table@,
            input@,
            parent_info@,
            default_if_absent,
        ),
        (parent_refs_ok(*schema_family, child_table@, parent_info@) && child_payload_ok(
            *schema_family,
            child_table@,
            input@,
            parent_info@,
            default_if_absent,
        )) ==> (r is Ok || (r matches Err(e) && e is Db)),
        !(parent_refs_ok(*schema_family, child_table@, parent_info@) && child_payload_ok(
            *schema_family,
            child_table@,
            input@,
            parent_info@,
            default_if_absent,
        )) ==> (r matches Err(e) && !(e is Db)),
        r matches Err(e) ==> (child_write_err_cause(
            *schema_family,
            child_table@,
            input@,
            parent_info@,
            default_if_absent,
            e,
        ) || (e matches StoreError::NotChildOf { child, parent } && child@ == child_table@
            && !crate::family::rel_has(schema_family.parents@, child_table@, parent@) && (exists|
            i: int,
        |
            0 <= i < parent_info@.len() && (#[trigger] parent_info@[i]).0@ == parent@)) || (
        e matches StoreError::TableNotFound { table: t } && !has_key(schema_family.map@, t@) && (
        exists|i: int|
            0 <= i < parent_info@.len() && (#[trigger] parent_info@[i]).0@ == t@)) || (exists|
            i: int,
        |
            0 <= i < parent_info@.len() && {
                let parent = (#[trigger] parent_info@[i]).0@;
                let v = parent_info@[i].1@;
                col_err_cause(
                    *schema_family,
                    parent,
                    the_schema(*schema_family, parent).pk@,
                    v,
                    e,
                ) || col_err_cause(
                    *schema_family,
                    child_table@,
                    fk_col_of(parent, the_schema(*schema_family, parent).pk@),
                    v,
                    e,
                )
            }) || e is Db),
{
    let mut updated_input: RecordOwned = clone_record(input);
    proof {
        lemma_rec_val_pointwise(updated_input@, input@);
        assert(parent_info@.take(0) =~= Seq::<(String, DbValue)>::empty());
    }
    let np = parent_info.len();
    let mut i: usize = 0;
    while i < np
        invariant
            0 <= i <= np,
            np == parent_info@.len(),
            schema_family.wf(),
            keys_distinct(updated_input@),
            forall|j: int|
                0 <= j < i ==> parenthood_ok(
                    *schema_family,
                    child_table@,
                    (#[trigger] parent_info@[j]).0@,
                    seq![parent_info@[j].1@],
                ),
            forall|k: Seq<char>|
                #[trigger] rec_val(updated_input@, k) == child_val(
                    *schema_family,
                    input@,
                    parent_info@.take(i as int),
                    k,
                ),
        decreases np - i,
    {
        let parent_table = &parent_info[i].0;
        let parent_val = &parent_info[i].1;
        let one = [parent_val.clone()];
        match verify_parenthood(schema_family, child_table, parent_table.as_str(), &one) {
            Ok(()) => {},
            Err(e) => {
                proof {
                    assert(crate::sql::vals_model(one@) =~= seq![parent_info@[i as int].1@]);
                    assert(one@[0]@ == parent_info@[i as int].1@);
                    assert(parent_info@[i as int].0@ == parent_table@);
                }
                return Err(e);
            },
        }
        proof {
            assert(crate::sql::vals_model(one@) =~= seq![parent_info@[i as int].1@]);
        }
        let fkn = match crate::verify::get_fk_name(parent_table.as_str(), schema_family) {
            Ok(s) => s,
            Err(e) => {
                proof {
                    assert(false);
                }
                return Err(e);
            },
        };
        let ghost before = updated_input@;
        upsert_record(&mut updated_input, fkn, parent_val.clone());
        proof {
            let t = parent_info@[i as int];
            assert(parent_info@.take(i + 1).last() == t);
            assert(parent_info@.take(i + 1).drop_last() =~= parent_info@.take(i as int));
            assert forall|k: Seq<char>| true implies (#[trigger] rec_val(updated_input@, k)
                == child_val(*schema_family, input@, parent_info@.take(i + 1), k)) by {
                if k == fk_col_of(t.0@, the_schema(*schema_family, t.0@).pk@) {
                    assert(rec_val(updated_input@, k) == Some(t.1@));
                } else {
                    assert(rec_val(updated_input@, k) == rec_val(before, k));
                }
            }
        }
        i = i + 1;
    }
    proof {
        assert(parent_info@.take(np as int) =~= parent_info@);
        lemma_child_payload_bridge(
            *schema_family,
            child_table@,
            input@,
            parent_info@,
            updated_input@,
            default_if_absent,
        );
    }
    create(conn, schema_family, child_table, &updated_input, default_if_absent)
}

/// A record binding exactly what the combined child payload binds passes
/// full-column verification exactly when the combined payload does, and
/// its verification errors speak of the combined payload's causes.
proof fn lemma_child_payload_bridge(
    f: SchemaFamily,
    child: Seq<char>,
    input: Seq<(String, DbValue)>,
    parent_info: Seq<(String, DbValue)>,
    rec: Seq<(String, DbValue)>,
    dia: bool,
)
    requires
        keys_distinct(rec),
        forall|k: Seq<char>|
            #[trigger] rec_val(rec, k) == child_val(f, input, parent_info, k),
    ensures
        payload_ok(f, child, rec, dia, true) == child_payload_ok(f, child, input, parent_info, dia),
        forall|e: StoreError|
            #[trigger] write_err_cause(f, child, rec, dia, true, e) ==> child_write_err_cause(
                f,
                child,
                input,
                parent_info,
                dia,
                e,
            ),
{
    let s = the_schema(f, child);
    assert forall|k: Seq<char>| true implies ((#[trigger] lookup(rec, k)) matches Some(v) ==> (
    child_val(f, input, parent_info, k) matches Some(m) && m == v@)) by {
        assert(rec_val(rec, k) == child_val(f, input, parent_info, k));
    }
    assert forall|k: Seq<char>| true implies (#[trigger] has_key(rec, k) == (child_val(
        f,
        input,
        parent_info,
        k,
    ) is Some)) by {
        assert(rec_val(rec, k) == child_val(f, input, parent_info, k));
    }
    if has_key(f.map@, child) {
        if child_payload_ok(f, child, input, parent_info, dia) {
            assert forall|idx: int| 0 <= idx < rec.len() implies entry_ok(
                s,
                (#[trigger] rec[idx]).0@,
                rec[idx].1@,
                dia,
            ) by {
                lemma_lookup_index(rec, idx);
                assert(rec_val(rec, rec[idx].0@) == Some(rec[idx].1@));
                assert(child_val(f, input, parent_info, rec[idx].0@) matches Some(v) && v
                    == rec[idx].1@);
            }
        }
        if payload_ok(f, child, rec, dia, true) {
            assert forall|k: Seq<char>| true implies ((#[trigger] child_val(
                f,
                input,
                parent_info,
                k,
            )) matches Some(v) ==> entry_ok(s, k, v, dia)) by {
                if child_val(f, input, parent_info, k) is Some {
                    assert(has_key(rec, k));
                    lemma_lookup_some_index(rec, k);
                    let idx = choose|idx: int|
                        0 <= idx < rec.len() && (#[trigger] rec[idx]).0@ == k && rec[idx].1
                            == lookup(rec, k).unwrap();
                    assert(entry_ok(s, rec[idx].0@, rec[idx].1@, dia));
                    assert(rec_val(rec, k) == Some(rec[idx].1@));
                }
            }
        }
    }
}

/// Copy a record.
fn clone_record(input: &RecordOwned) -> (r: RecordOwned)
    ensures
        r@.len() == input@.len(),
        forall|j: int|
            0 <= j < input@.len() ==> (#[trigger] r@[j]).0 == input@[j].0 && r@[j].1@
                == input@[j].1@,
        keys_distinct(input@) ==> keys_distinct(r@),
{
    let mut out: RecordOwned = Vec::new();
    let n = input.len();
    let mut i: usize = 0;
    while i < n
        invariant
            0 <= i <= n,
            n == input@.len(),
            out@.len() == i,
            forall|j: int|
                0 <= j < i ==> (#[trigger] out@[j]).0 == input@[j].0 && out@[j].1@
                    == input@[j].1@,
        decreases n - i,
    {
        out.push((input[i].0.clone(), input[i].1.clone()));
        i = i + 1;
    }
    out
}

/// A record that agrees with another pairwise — equal keys, values of
/// equal model — binds the same models to every key.
proof fn lemma_rec_val_pointwise(a: Seq<(String, DbValue)>, b: Seq<(String, DbValue)>)
    requires
        a.len() == b.len(),
        forall|j: int| 0 <= j < a.len() ==> (#[trigger] a[j]).0@ == b[j].0@ && a[j].1@ == b[j].1@,
    ensures
        forall|k: Seq<char>| #[trigger] rec_val(a, k) == rec_val(b, k),
    decreases a.len(),
{
    if a.len() > 0 {
        assert(forall|j: int|
            0 <= j < a.drop_first().len() ==> ((#[trigger] a.drop_first()[j]) == a[j + 1]
                && b.drop_first()[j] == b[j + 1]));
        lemma_rec_val_pointwise(a.drop_first(), b.drop_first());
        assert forall|k: Seq<char>| true implies (#[trigger] rec_val(a, k) == rec_val(b, k)) by {
            if a.first().0@ != k {
                assert(rec_val(a.drop_first(), k) == rec_val(b.drop_first(), k));
                assert(lookup(a, k) == lookup(a.drop_first(), k));
                assert(lookup(b, k) == lookup(b.drop_first(), k));
            }
        }
    }
}

/// Bind `k` to `v` in the record, replacing any earlier binding and
/// leaving every other column's value as it was.
fn upsert_record(rec: &mut RecordOwned, k: String, v: DbValue)
    requires
        keys_distinct(old(rec)@),
    ensures
        keys_distinct(final(rec)@),
        rec_val(final(rec)@, k@) == Some(v@),
        forall|k2: Seq<char>|
            k2 != k@ ==> #[trigger] rec_val(final(rec)@, k2) == rec_val(old(rec)@, k2),
{
    let ghost r0 = rec@;
    match crate::assoc::assoc_index(rec, k.as_str()) {
        Some(i) => {
            let entry = &mut rec[i];
            entry.1 = v;
            proof {
                assert(final(entry).0 == r0[i as int].0);
                assert(keys_distinct(rec@)) by {
                    assert(forall|x: int|
                        0 <= x < rec@.len() ==> (#[trigger] rec@[x]).0@ == r0[x].0@);
                }
                assert forall|k2: Seq<char>| true implies (#[trigger] lookup(rec@, k2) == if k2
                    == k@ {
                    Some(final(entry).1)
                } else {
                    lookup(r0, k2)
                }) by {
                    lemma_lookup_update(r0, i as int, final(entry).1, k2);
                    lemma_lookup_index(r0, i as int);
                }
            }
        },
        None => {
            rec.push((k, v));
            proof {
                assert(keys_distinct(rec@)) by {
                    lemma_lookup_exists(r0, rec@[rec@.len() - 1].0@);
                    assert(forall|x: int| 0 <= x < r0.len() ==> (#[trigger] rec@[x]) == r0[x]);
                }
                assert forall|k2: Seq<char>| true implies (#[trigger] lookup(rec@, k2) == if k2
                    == k@ {
                    Some(rec@[rec@.len() - 1].1)
                } else {
                    lookup(r0, k2)
                }) by {
                    lemma_lookup_push(r0, rec@[rec@.len() - 1], k2);
                    lemma_lookup_exists(r0, k@);
                }
            }
        },
    }
}

} // verus!
