//! The store's general laws, stated and proved once over the spec
//! functions and views that the public contracts use.

use vstd::prelude::*;

use crate::assoc::{has_key, lemma_lookup_exists, lemma_lookup_some_index, lookup};
use crate::family::{rel_has, SchemaFamily};
use crate::value::DbValue;
use crate::verify::{
    absent_ok, default_model, entry_ok, normalized_val, payload_ok, the_schema, verified_record,
};

verus! {

/// For every table pair discovered as peers, each stands among the peers
/// of the other: the peer relation of a well-formed family is symmetric.
pub proof fn lemma_peers_symmetric(f: SchemaFamily, a: Seq<char>, b: Seq<char>)
    requires
        f.wf(),
        rel_has(f.peers@, a, b),
    ensures
        rel_has(f.peers@, b, a),
{
}

/// For every table with a discovered parent, the child stands among the
/// parent's children and the parent among the child's parents: the parent
/// and child relations of a well-formed family are inverse to one another.
pub proof fn lemma_parent_child_inverse(f: SchemaFamily, c: Seq<char>, p: Seq<char>)
    requires
        f.wf(),
    ensures
        rel_has(f.parents@, c, p) <==> rel_has(f.children@, p, c),
{
}

/// In full-column mode, a record that verification hands back is never
/// missing a schema-declared required column, and every required column
/// holds a non-empty value.
pub proof fn lemma_full_mode_required_present(
    f: SchemaFamily,
    table: Seq<char>,
    input: Seq<(String, DbValue)>,
    rec: Seq<(String, DbValue)>,
    dia: bool,
)
    requires
        f.wf(),
        payload_ok(f, table, input, dia, true),
        verified_record(f, table, input, rec, dia, true),
    ensures
        forall|k: Seq<char>|
            #[trigger] the_schema(f, table).is_required_col(k) ==> (lookup(rec, k) matches Some(
                v,
            ) && !v@.is_empty_val()),
{
    let s = the_schema(f, table);
    assert(s.wf());
    assert forall|k: Seq<char>| #[trigger] s.is_required_col(k) implies (lookup(rec, k)
        matches Some(v) && !v@.is_empty_val()) by {
        let ri = choose|ri: int|
            0 <= ri < s.required_fields@.len() && (#[trigger] s.required_fields@[ri])@ == k;
        assert(has_key(s.types@, k));
        lemma_lookup_exists(s.types@, k);
        let tj = choose|tj: int| 0 <= tj < s.types@.len() && (#[trigger] s.types@[tj]).0@ == k;
        lemma_lookup_exists(input, k);
        if has_key(input, k) {
            lemma_lookup_some_index(input, k);
            let i = choose|i: int|
                0 <= i < input.len() && (#[trigger] input[i]).0@ == k && input[i].1 == lookup(
                    input,
                    k,
                ).unwrap();
            assert(entry_ok(s, k, input[i].1@, dia));
            assert(lookup(rec, k) matches Some(rv) && rv@ == normalized_val(
                s,
                k,
                lookup(input, k).unwrap()@,
                dia,
            ));
        } else {
            assert(absent_ok(s, k, dia));
            assert(has_key(rec, k));
            assert(lookup(rec, k) matches Some(rv) && rv@ == default_model(s, k));
        }
    }
}

/// In partial mode, whether a payload is accepted depends only on the
/// columns it actually names: a payload that omits optional columns is
/// never rejected on their account, since no absent column is checked.
pub proof fn lemma_partial_mode_ignores_absent(
    f: SchemaFamily,
    table: Seq<char>,
    input: Seq<(String, DbValue)>,
    dia: bool,
)
    ensures
        payload_ok(f, table, input, dia, false) <==> (has_key(f.map@, table) && (forall|i: int|
            0 <= i < input.len() ==> entry_ok(
                the_schema(f, table),
                (#[trigger] input[i]).0@,
                input[i].1@,
                dia,
            ))),
{
}

} // verus!
