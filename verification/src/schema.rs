//! Table schemas: the per-table description that schema discovery produces
//! and that every write verification and relationship check consults.

use vstd::prelude::*;

use crate::assoc::{has_key, keys_distinct, lemma_lookup_exists, lemma_lookup_index, lookup};
use crate::error::StoreError;
use crate::strutil::{contains_name, match_ci, name_in_list, trim_str, views_of_strs};
use crate::value::{DbType, DbVal, DbValue};

verus! {

/// The metadata of one column, read from the database's catalog and used
/// only while a schema family is being resolved.
#[derive(Debug, Clone)]
pub struct ColumnMeta {
    /// The name of the column.
    pub name: String,
    /// The declared type of the column.
    pub col_type: DbType,
    /// Whether the column is required (NOT NULL).
    pub is_required: bool,
    /// The column's default value, never the Null variant after
    /// normalization.
    pub default: DbValue,
    /// Whether the column is the primary key.
    pub is_pk: bool,
}

/// The schema of one table: its name, single primary-key column, required
/// columns, and each column's declared type and default value.
#[derive(Debug, Clone)]
pub struct Schema {
    /// The name of the table.
    pub name: String,
    /// The name of the primary-key column; empty when the table has none.
    pub pk: String,
    /// The columns that must hold a non-empty value on a write.
    pub required_fields: Vec<String>,
    /// The declared type of each column.
    pub types: Vec<(String, DbType)>,
    /// The default value of each column.
    pub defaults: Vec<(String, DbValue)>,
}

impl Schema {
    /// The structural soundness of a schema: column names are unique, the
    /// defaults cover exactly the declared columns, every required field and
    /// the primary key are declared columns.
    pub open spec fn wf(self) -> bool {
        &&& keys_distinct(self.types@)
        &&& keys_distinct(self.defaults@)
        &&& forall|k: Seq<char>| #[trigger] has_key(self.defaults@, k) <==> has_key(self.types@, k)
        &&& forall|i: int|
            0 <= i < self.required_fields@.len() ==> has_key(
                self.types@,
                #[trigger] self.required_fields@[i]@,
            )
        &&& forall|i: int, j: int|
            0 <= i < j < self.required_fields@.len() ==> self.required_fields@[i]@
                != self.required_fields@[j]@
        &&& (self.pk@.len() == 0 || has_key(self.types@, self.pk@))
    }

    /// The declared type of a column, if it is declared.
    pub open spec fn col_type(self, k: Seq<char>) -> Option<DbType> {
        lookup(self.types@, k)
    }

    /// Whether a column is declared.
    pub open spec fn has_col(self, k: Seq<char>) -> bool {
        has_key(self.types@, k)
    }

    /// Whether a column must hold a non-empty value on a write.
    pub open spec fn is_required_col(self, k: Seq<char>) -> bool {
        contains_name(self.required_fields@, k)
    }

    /// Check the given column names against the schema and return the first
    /// that it does not declare.
    pub fn find_unknown_field(&self, challenges: &[&str]) -> (r: Option<String>)
        ensures
            match r {
                Some(c) => exists|i: int|
                    0 <= i < challenges@.len() && c@ == #[trigger] challenges@[i]@ && !self.has_col(
                        challenges@[i]@,
                    ),
                None => forall|i: int|
                    0 <= i < challenges@.len() ==> self.has_col(#[trigger] challenges@[i]@),
            },
    {
        let n = challenges.len();
        let mut i: usize = 0;
        while i < n
            invariant
                0 <= i <= n,
                n == challenges@.len(),
                forall|j: int| 0 <= j < i ==> self.has_col(#[trigger] challenges@[j]@),
            decreases n - i,
        {
            let c = challenges[i];
            if !crate::assoc::assoc_has(&self.types, c) {
                return Some(c.to_owned());
            }
            i = i + 1;
        }
        None
    }
}

/// Whether a column counts as required: marked NOT NULL, the primary key,
/// or named after the foreign-key convention — its name is the canonical
/// foreign-key column name `<table>_<that table's primary key>` of one of
/// the known tables, given here as `fks`.
pub open spec fn required_col(name: Seq<char>, m: ColumnMeta, fks: Seq<Seq<char>>) -> bool {
    m.is_required || m.is_pk || fks.contains(name)
}

/// Whether some column of the list is marked as the primary key.
pub open spec fn has_pk(metas: Seq<(String, ColumnMeta)>) -> bool {
    exists|j: int| 0 <= j < metas.len() && (#[trigger] metas[j]).1.is_pk
}

/// The name of the first column marked as the primary key, or the empty name
/// when there is none.
pub open spec fn first_pk(metas: Seq<(String, ColumnMeta)>) -> Seq<char>
    decreases metas.len(),
{
    if metas.len() == 0 {
        Seq::empty()
    } else if metas.first().1.is_pk {
        metas.first().0@
    } else {
        first_pk(metas.drop_first())
    }
}

proof fn lemma_first_pk_none(metas: Seq<(String, ColumnMeta)>)
    requires
        !has_pk(metas),
    ensures
        first_pk(metas) == Seq::<char>::empty(),
    decreases metas.len(),
{
    if metas.len() > 0 {
        assert(!metas[0].1.is_pk);
        assert(forall|j: int|
            0 <= j < metas.drop_first().len() ==> (#[trigger] metas.drop_first()[j]) == metas[j
                + 1]);
        lemma_first_pk_none(metas.drop_first());
    }
}

proof fn lemma_first_pk_push(metas: Seq<(String, ColumnMeta)>, p: (String, ColumnMeta))
    ensures
        first_pk(metas.push(p)) == if has_pk(metas) {
            first_pk(metas)
        } else if p.1.is_pk {
            p.0@
        } else {
            Seq::<char>::empty()
        },
        has_pk(metas.push(p)) == (has_pk(metas) || p.1.is_pk),
    decreases metas.len(),
{
    if metas.len() == 0 {
        assert(metas.push(p).first() == p);
        if !p.1.is_pk {
            assert(metas.push(p).drop_first() =~= Seq::<(String, ColumnMeta)>::empty());
            assert(first_pk(Seq::<(String, ColumnMeta)>::empty()) == Seq::<char>::empty());
        }
        assert(has_pk(metas.push(p)) == p.1.is_pk) by {
            if p.1.is_pk {
                assert(metas.push(p)[0].1.is_pk);
            }
        }
    } else {
        assert(metas.push(p).first() == metas.first());
        assert(metas.push(p).drop_first() =~= metas.drop_first().push(p));
        lemma_first_pk_push(metas.drop_first(), p);
        assert(has_pk(metas) == (metas[0].1.is_pk || has_pk(metas.drop_first()))) by {
            if has_pk(metas) {
                let j = choose|j: int| 0 <= j < metas.len() && (#[trigger] metas[j]).1.is_pk;
                if j > 0 {
                    assert(metas.drop_first()[j - 1].1.is_pk);
                }
            }
            if has_pk(metas.drop_first()) {
                let j = choose|j: int|
                    0 <= j < metas.drop_first().len() && (#[trigger] metas.drop_first()[j]).1.is_pk;
                assert(metas[j + 1].1.is_pk);
            }
        }
        assert(has_pk(metas.push(p)) == (has_pk(metas) || p.1.is_pk)) by {
            if has_pk(metas.push(p)) {
                let j = choose|j: int|
                    0 <= j < metas.push(p).len() && (#[trigger] metas.push(p)[j]).1.is_pk;
                if j < metas.len() {
                    assert(metas[j].1.is_pk);
                }
            }
            if has_pk(metas) {
                let j = choose|j: int| 0 <= j < metas.len() && (#[trigger] metas[j]).1.is_pk;
                assert(metas.push(p)[j].1.is_pk);
            }
            if p.1.is_pk {
                assert(metas.push(p)[metas.len() as int].1.is_pk);
            }
        }
    }
}

proof fn lemma_first_pk_at(metas: Seq<(String, ColumnMeta)>, i: int)
    requires
        0 <= i < metas.len(),
        forall|j: int| 0 <= j < i ==> !(#[trigger] metas[j]).1.is_pk,
        metas[i].1.is_pk,
    ensures
        first_pk(metas) == metas[i].0@,
    decreases i,
{
    if i > 0 {
        assert(!metas.first().1.is_pk);
        assert(forall|j: int|
            0 <= j < metas.drop_first().len() ==> (#[trigger] metas.drop_first()[j]) == metas[j
                + 1]);
        lemma_first_pk_at(metas.drop_first(), i - 1);
    }
}

/// The name of the first column marked as the primary key, or the empty
/// name when there is none.
pub fn first_pk_col(column_meta: &Vec<(String, ColumnMeta)>) -> (r: String)
    ensures
        r@ == first_pk(column_meta@),
{
    let n = column_meta.len();
    let mut i: usize = 0;
    while i < n
        invariant
            0 <= i <= n,
            n == column_meta@.len(),
            forall|j: int| 0 <= j < i ==> !(#[trigger] column_meta@[j]).1.is_pk,
        decreases n - i,
    {
        if column_meta[i].1.is_pk {
            proof {
                lemma_first_pk_at(column_meta@, i as int);
            }
            return column_meta[i].0.clone();
        }
        i = i + 1;
    }
    proof {
        assert(!has_pk(column_meta@));
        lemma_first_pk_none(column_meta@);
    }
    String::new()
}

proof fn lemma_first_pk_is_key(metas: Seq<(String, ColumnMeta)>)
    requires
        has_pk(metas),
    ensures
        exists|j: int|
            0 <= j < metas.len() && (#[trigger] metas[j]).0@ == first_pk(metas)
                && metas[j].1.is_pk,
    decreases metas.len(),
{
    if metas.first().1.is_pk {
        assert(metas[0].0@ == first_pk(metas) && metas[0].1.is_pk);
    } else {
        assert(has_pk(metas.drop_first())) by {
            let j = choose|j: int| 0 <= j < metas.len() && (#[trigger] metas[j]).1.is_pk;
            assert(metas.drop_first()[j - 1].1.is_pk);
        }
        lemma_first_pk_is_key(metas.drop_first());
        let j = choose|j: int|
            0 <= j < metas.drop_first().len() && (#[trigger] metas.drop_first()[j]).0@ == first_pk(
                metas.drop_first(),
            ) && metas.drop_first()[j].1.is_pk;
        assert(metas[j + 1].0@ == first_pk(metas) && metas[j + 1].1.is_pk);
    }
}

/// The canonical schema built from a table's column metadata.
pub open spec fn schema_from_meta(
    s: Schema,
    table: Seq<char>,
    metas: Seq<(String, ColumnMeta)>,
    fks: Seq<Seq<char>>,
) -> bool {
    &&& s.wf()
    &&& s.name@ == table
    &&& s.pk@ == first_pk(metas)
    &&& forall|k: Seq<char>| #[trigger] has_key(s.types@, k) <==> has_key(metas, k)
    &&& forall|k: Seq<char>|
        (#[trigger] lookup(metas, k)) matches Some(m) ==> lookup(s.types@, k) == Some(m.col_type)
    &&& forall|k: Seq<char>|
        (#[trigger] lookup(metas, k)) matches Some(m) ==> (lookup(s.defaults@, k) matches Some(d)
            && d@ == m.default@)
    &&& forall|k: Seq<char>|
        (#[trigger] lookup(metas, k)) matches Some(m) ==> (contains_name(s.required_fields@, k)
            <==> required_col(k, m, fks))
    &&& forall|k: Seq<char>| #[trigger] contains_name(s.required_fields@, k) ==> has_key(metas, k)
}

/// Build the schema of one table out of its column metadata: declared types
/// and defaults as given, the first column marked primary-key as `pk`, and
/// as required every column that is NOT NULL, the primary key, or whose
/// name is one of the given canonical foreign-key column names
/// (`<table>_<that table's primary key>`, as the resolver computes them).
pub fn column_meta_items_to_schema(
    table_name: &str,
    column_meta: &Vec<(String, ColumnMeta)>,
    fk_names: &Vec<String>,
) -> (r: Result<Schema, StoreError>)
    requires
        keys_distinct(column_meta@),
    ensures
        r matches Ok(s) && schema_from_meta(s, table_name@, column_meta@, views_of_strs(
            fk_names@,
        )),
{
    let n = column_meta.len();
    let mut required_fields: Vec<String> = Vec::new();
    let mut defaults: Vec<(String, DbValue)> = Vec::new();
    let mut types: Vec<(String, DbType)> = Vec::new();
    let mut pk: String = String::new();
    let mut found_pk = false;
    let mut i: usize = 0;
    while i < n
        invariant
            0 <= i <= n,
            n == column_meta@.len(),
            keys_distinct(column_meta@),
            types@.len() == i,
            defaults@.len() == i,
            forall|j: int|
                0 <= j < i ==> (#[trigger] types@[j]).0@ == column_meta@[j].0@ && types@[j].1
                    == column_meta@[j].1.col_type,
            forall|j: int|
                0 <= j < i ==> (#[trigger] defaults@[j]).0@ == column_meta@[j].0@
                    && defaults@[j].1@ == column_meta@[j].1.default@,
            forall|k: Seq<char>|
                #[trigger] contains_name(required_fields@, k) <==> exists|j: int|
                    0 <= j < i && (#[trigger] column_meta@[j]).0@ == k && required_col(
                        k,
                        column_meta@[j].1,
                        views_of_strs(fk_names@),
                    ),
            forall|a: int, b: int|
                0 <= a < b < required_fields@.len() ==> required_fields@[a]@
                    != required_fields@[b]@,
            found_pk == has_pk(column_meta@.take(i as int)),
            pk@ == first_pk(column_meta@.take(i as int)),
        decreases n - i,
    {
        let ghost prefix = column_meta@.take(i as int);
        let ghost old_found = found_pk;
        let name = &column_meta[i].0;
        let meta = &column_meta[i].1;
        let is_req = meta.is_required || meta.is_pk || name_in_list(fk_names, name.as_str());
        proof {
            if contains_name(fk_names@, name@) {
                let x = choose|x: int| 0 <= x < fk_names@.len() && fk_names@[x]@ == name@;
                assert(views_of_strs(fk_names@)[x] == name@);
            }
            if views_of_strs(fk_names@).contains(name@) {
                let x = choose|x: int|
                    0 <= x < views_of_strs(fk_names@).len() && views_of_strs(fk_names@)[x]
                        == name@;
                assert(fk_names@[x]@ == name@);
            }
            assert(contains_name(fk_names@, name@) == views_of_strs(fk_names@).contains(name@));
        }
        if is_req {
            let ghost old_required = required_fields@;
            required_fields.push(name.clone());
            proof {
                assert forall|k: Seq<char>| #[trigger] contains_name(required_fields@, k) implies (
                exists|j: int|
                    0 <= j < i + 1 && (#[trigger] column_meta@[j]).0@ == k && required_col(
                        k,
                        column_meta@[j].1,
                        views_of_strs(fk_names@),
                    )) by {
                    let x = choose|x: int|
                        0 <= x < required_fields@.len() && required_fields@[x]@ == k;
                    if x < old_required.len() {
                        assert(contains_name(old_required, k));
                    } else {
                        assert(column_meta@[i as int].0@ == k);
                        assert(required_col(k, column_meta@[i as int].1, views_of_strs(fk_names@)));
                    }
                }
                assert forall|k: Seq<char>|
                    exists|j: int|
                        0 <= j < i + 1 && (#[trigger] column_meta@[j]).0@ == k && required_col(
                        k,
                        column_meta@[j].1,
                        views_of_strs(fk_names@),
                    ) implies #[trigger] contains_name(required_fields@, k) by {
                    let j = choose|j: int|
                        0 <= j < i + 1 && (#[trigger] column_meta@[j]).0@ == k && required_col(
                        k,
                        column_meta@[j].1,
                        views_of_strs(fk_names@),
                    );
                    if j < i {
                        assert(contains_name(old_required, k));
                        let x = choose|x: int|
                            0 <= x < old_required.len() && old_required[x]@ == k;
                        assert(required_fields@[x]@ == k);
                    } else {
                        assert(required_fields@[required_fields@.len() - 1]@ == k);
                    }
                }
                assert forall|a: int, b: int|
                    0 <= a < b < required_fields@.len() implies required_fields@[a]@
                    != required_fields@[b]@ by {
                    if b == required_fields@.len() - 1 && required_fields@[a]@
                        == required_fields@[b]@ {
                        assert(old_required[a]@ == required_fields@[a]@);
                        assert(contains_name(old_required, required_fields@[a]@));
                        let j = choose|j: int|
                            0 <= j < i && (#[trigger] column_meta@[j]).0@ == required_fields@[a]@
                                && required_col(required_fields@[a]@, column_meta@[j].1, views_of_strs(fk_names@));
                        assert(required_fields@[b]@ == column_meta@[i as int].0@);
                        assert(column_meta@[j].0@ == column_meta@[i as int].0@);
                        assert(false);
                    }
                }
            }
        } else {
            proof {
                assert forall|k: Seq<char>| #[trigger] contains_name(required_fields@, k) implies (
                exists|j: int|
                    0 <= j < i + 1 && (#[trigger] column_meta@[j]).0@ == k && required_col(
                        k,
                        column_meta@[j].1,
                        views_of_strs(fk_names@),
                    )) by {
                    let j = choose|j: int|
                        0 <= j < i && (#[trigger] column_meta@[j]).0@ == k && required_col(
                        k,
                        column_meta@[j].1,
                        views_of_strs(fk_names@),
                    );
                    assert(0 <= j < i + 1);
                }
                assert forall|k: Seq<char>|
                    exists|j: int|
                        0 <= j < i + 1 && (#[trigger] column_meta@[j]).0@ == k && required_col(
                        k,
                        column_meta@[j].1,
                        views_of_strs(fk_names@),
                    ) implies #[trigger] contains_name(required_fields@, k) by {
                    let j = choose|j: int|
                        0 <= j < i + 1 && (#[trigger] column_meta@[j]).0@ == k && required_col(
                        k,
                        column_meta@[j].1,
                        views_of_strs(fk_names@),
                    );
                    if j == i {
                        assert(!required_col(column_meta@[i as int].0@, column_meta@[i as int].1, views_of_strs(fk_names@)));
                        assert(false);
                    }
                }
            }
        }
        if meta.is_pk && !found_pk {
            pk = name.clone();
            found_pk = true;
        }
        defaults.push((name.clone(), meta.default.clone()));
        types.push((name.clone(), meta.col_type));
        proof {
            lemma_first_pk_push(prefix, column_meta@[i as int]);
            assert(prefix.push(column_meta@[i as int]) =~= column_meta@.take(i + 1));
            assert(first_pk(column_meta@.take(i + 1)) == first_pk(
                prefix.push(column_meta@[i as int]),
            ));
            if old_found {
                assert(first_pk(column_meta@.take(i + 1)) == first_pk(prefix));
            } else if column_meta@[i as int].1.is_pk {
                assert(pk@ == column_meta@[i as int].0@);
            } else {
                lemma_first_pk_none(prefix);
            }
        }
        i = i + 1;
    }
    proof {
        assert(column_meta@.take(n as int) =~= column_meta@);
    }
    let schema = Schema { name: table_name.to_owned(), pk, required_fields, types, defaults };
    proof {
        lemma_schema_build_ok(schema, table_name@, column_meta@, views_of_strs(fk_names@));
    }
    Ok(schema)
}

/// Pointwise agreement of the built maps with the metadata gives the
/// lookup-level properties of `schema_from_meta`.
proof fn lemma_schema_build_ok(
    s: Schema,
    table: Seq<char>,
    metas: Seq<(String, ColumnMeta)>,
    fks: Seq<Seq<char>>,
)
    requires
        keys_distinct(metas),
        s.name@ == table,
        s.types@.len() == metas.len(),
        s.defaults@.len() == metas.len(),
        forall|j: int|
            0 <= j < metas.len() ==> (#[trigger] s.types@[j]).0@ == metas[j].0@ && s.types@[j].1
                == metas[j].1.col_type,
        forall|j: int|
            0 <= j < metas.len() ==> (#[trigger] s.defaults@[j]).0@ == metas[j].0@
                && s.defaults@[j].1@ == metas[j].1.default@,
        forall|k: Seq<char>|
            #[trigger] contains_name(s.required_fields@, k) <==> exists|j: int|
                0 <= j < metas.len() && (#[trigger] metas[j]).0@ == k && required_col(
                    k,
                    metas[j].1,
                    fks,
                ),
        forall|a: int, b: int|
            0 <= a < b < s.required_fields@.len() ==> s.required_fields@[a]@
                != s.required_fields@[b]@,
        s.pk@ == first_pk(metas),
    ensures
        schema_from_meta(s, table, metas, fks),
{
    assert(keys_distinct(s.types@));
    assert(keys_distinct(s.defaults@));
    assert forall|k: Seq<char>| true implies (#[trigger] has_key(s.types@, k) <==> has_key(
        metas,
        k,
    )) by {
        lemma_lookup_exists(s.types@, k);
        lemma_lookup_exists(metas, k);
        if has_key(s.types@, k) {
            let j = choose|j: int| 0 <= j < s.types@.len() && s.types@[j].0@ == k;
            assert(metas[j].0@ == k);
        }
        if has_key(metas, k) {
            let j = choose|j: int| 0 <= j < metas.len() && metas[j].0@ == k;
            assert(s.types@[j].0@ == k);
        }
    }
    assert forall|k: Seq<char>| true implies (#[trigger] has_key(s.defaults@, k) <==> has_key(
        s.types@,
        k,
    )) by {
        lemma_lookup_exists(s.types@, k);
        lemma_lookup_exists(s.defaults@, k);
        if has_key(s.defaults@, k) {
            let j = choose|j: int| 0 <= j < s.defaults@.len() && s.defaults@[j].0@ == k;
            assert(s.types@[j].0@ == k);
        }
        if has_key(s.types@, k) {
            let j = choose|j: int| 0 <= j < s.types@.len() && s.types@[j].0@ == k;
            assert(s.defaults@[j].0@ == k);
        }
    }
    assert forall|k: Seq<char>| true implies ((#[trigger] lookup(metas, k)) matches Some(m)
        ==> lookup(s.types@, k) == Some(m.col_type)) by {
        lemma_lookup_exists(metas, k);
        if has_key(metas, k) {
            let j = choose|j: int| 0 <= j < metas.len() && (#[trigger] metas[j]).0@ == k;
            lemma_lookup_index(metas, j);
            lemma_lookup_index(s.types@, j);
            assert(s.types@[j].0@ == k);
        }
    }
    assert forall|k: Seq<char>| true implies ((#[trigger] lookup(metas, k)) matches Some(m) ==> (
    lookup(s.defaults@, k) matches Some(d) && d@ == m.default@)) by {
        lemma_lookup_exists(metas, k);
        if has_key(metas, k) {
            let j = choose|j: int| 0 <= j < metas.len() && (#[trigger] metas[j]).0@ == k;
            lemma_lookup_index(metas, j);
            lemma_lookup_index(s.defaults@, j);
            assert(s.defaults@[j].0@ == k);
        }
    }
    assert forall|k: Seq<char>| true implies ((#[trigger] lookup(metas, k)) matches Some(m) ==> (
    contains_name(s.required_fields@, k) <==> required_col(k, m, fks))) by {
        lemma_lookup_exists(metas, k);
        if has_key(metas, k) {
            let j = choose|j: int| 0 <= j < metas.len() && (#[trigger] metas[j]).0@ == k;
            lemma_lookup_index(metas, j);
            if contains_name(s.required_fields@, k) {
                let j2 = choose|j2: int|
                    0 <= j2 < metas.len() && (#[trigger] metas[j2]).0@ == k && required_col(
                        k,
                        metas[j2].1,
                        fks,
                    );
                assert(j2 == j || metas[j2].0@ != metas[j].0@);
            }
        }
    }
    assert forall|k: Seq<char>| #[trigger] contains_name(s.required_fields@, k) implies has_key(
        metas,
        k,
    ) by {
        lemma_lookup_exists(metas, k);
    }
    assert forall|i: int|
        0 <= i < s.required_fields@.len() implies has_key(
        s.types@,
        #[trigger] s.required_fields@[i]@,
    ) by {
        assert(contains_name(s.required_fields@, s.required_fields@[i]@));
        lemma_lookup_exists(metas, s.required_fields@[i]@);
        lemma_lookup_exists(s.types@, s.required_fields@[i]@);
    }
    if s.pk@.len() != 0 {
        assert(has_pk(metas)) by {
            if !has_pk(metas) {
                lemma_first_pk_none(metas);
            }
        }
        lemma_first_pk_is_key(metas);
        let j = choose|j: int|
            0 <= j < metas.len() && (#[trigger] metas[j]).0@ == first_pk(metas)
                && metas[j].1.is_pk;
        assert(s.types@[j].0@ == s.pk@);
        lemma_lookup_exists(s.types@, s.pk@);
    }
}

/// The primitive type named by a declared-type text, compared without case
/// after trimming; anything else maps to `Null`.
pub open spec fn type_from_text(s: Seq<char>) -> DbType {
    let t = crate::strutil::trim_text(s);
    if crate::strutil::ci_eq(t, "integer"@, "INTEGER"@) {
        DbType::Integer
    } else if crate::strutil::ci_eq(t, "real"@, "REAL"@) {
        DbType::Real
    } else if crate::strutil::ci_eq(t, "text"@, "TEXT"@) {
        DbType::Text
    } else if crate::strutil::ci_eq(t, "blob"@, "BLOB"@) {
        DbType::Blob
    } else {
        DbType::Null
    }
}

/// Map a declared column type to the primitive type it names.
pub fn get_type_from_str(t: &str) -> (r: DbType)
    ensures
        r == type_from_text(t@),
{
    let trimmed = trim_str(t);
    let tt = trimmed.as_str();
    proof {
        reveal_strlit("integer");
        reveal_strlit("INTEGER");
        reveal_strlit("real");
        reveal_strlit("REAL");
        reveal_strlit("text");
        reveal_strlit("TEXT");
        reveal_strlit("blob");
        reveal_strlit("BLOB");
    }
    if match_ci(tt, "integer", "INTEGER") {
        DbType::Integer
    } else if match_ci(tt, "real", "REAL") {
        DbType::Real
    } else if match_ci(tt, "text", "TEXT") {
        DbType::Text
    } else if match_ci(tt, "blob", "BLOB") {
        DbType::Blob
    } else {
        DbType::Null
    }
}

/// The canonical zero or empty value of each primitive type.
pub open spec fn default_val_of(t: DbType) -> DbVal {
    match t {
        DbType::Integer => DbVal::Int(0),
        DbType::Real => DbVal::Real(0),
        DbType::Text => DbVal::Text(Seq::empty()),
        DbType::Blob => DbVal::Blob(Seq::empty()),
        DbType::Null => DbVal::Null,
    }
}

/// The canonical zero or empty value of a column's declared type: 0, the
/// zero real, the empty text, or the empty blob.
pub fn get_default_db_value(col_type: DbType) -> (r: DbValue)
    ensures
        r@ == default_val_of(col_type),
{
    match col_type {
        DbType::Integer => DbValue::Integer(0),
        DbType::Real => DbValue::Real(0),
        DbType::Text => DbValue::Text(String::new()),
        DbType::Blob => DbValue::Blob(Vec::new()),
        DbType::Null => DbValue::Null,
    }
}

} // verus!
