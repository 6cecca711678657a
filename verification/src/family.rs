//! The schema family: the immutable snapshot of every table's schema and of
//! the parent/child and peer relationships inferred from naming conventions.
//! It is built once per connection and consulted, never changed, by every
//! CRUD operation.

use vstd::prelude::*;

use crate::assoc::{assoc_get, assoc_index, has_key, keys_distinct, lookup};
use crate::error::StoreError;
use crate::schema::Schema;
use crate::strutil::{contains_name, name_in_list};

verus! {

/// Whether `b` is recorded among the related names of `a` in a relation
/// map.
pub open spec fn rel_has(m: Seq<(String, Vec<String>)>, a: Seq<char>, b: Seq<char>) -> bool {
    match lookup(m, a) {
        Some(v) => contains_name(v@, b),
        None => false,
    }
}

/// The complete, immutable relationship snapshot of one database.
#[derive(Debug, Clone)]
pub struct SchemaFamily {
    /// Each table's schema, by table name.
    pub map: Vec<(String, Schema)>,
    /// For each child table, its parent tables.
    pub parents: Vec<(String, Vec<String>)>,
    /// For each parent table, its child tables.
    pub children: Vec<(String, Vec<String>)>,
    /// For each table, its peer tables; always symmetric.
    pub peers: Vec<(String, Vec<String>)>,
    /// For each table with peers, the junction table that stores the pairs.
    pub peer_link_tables: Vec<(String, String)>,
}

impl SchemaFamily {
    /// The structural soundness of a family: unique keys everywhere, every
    /// schema well-formed under its own name, the peer relation symmetric,
    /// and the parent and child relations inverse to one another.
    pub open spec fn wf(self) -> bool {
        &&& keys_distinct(self.map@)
        &&& keys_distinct(self.parents@)
        &&& keys_distinct(self.children@)
        &&& keys_distinct(self.peers@)
        &&& keys_distinct(self.peer_link_tables@)
        &&& forall|t: Seq<char>|
            (#[trigger] lookup(self.map@, t)) matches Some(s) ==> s.wf() && s.name@ == t
        &&& forall|a: Seq<char>, b: Seq<char>|
            #[trigger] rel_has(self.peers@, a, b) ==> rel_has(self.peers@, b, a)
        &&& forall|a: Seq<char>, b: Seq<char>|
            #[trigger] rel_has(self.parents@, a, b) ==> rel_has(self.children@, b, a)
        &&& forall|a: Seq<char>, b: Seq<char>|
            #[trigger] rel_has(self.children@, a, b) ==> rel_has(self.parents@, b, a)
    }

    /// Get the schema of a table by its name, or say that the family does
    /// not know the table.
    pub fn try_get_schema(&self, table_name: &str) -> (r: Result<&Schema, StoreError>)
        ensures
            match r {
                Ok(s) => lookup(self.map@, table_name@) == Some(*s),
                Err(e) => !has_key(self.map@, table_name@) && (e matches
                    StoreError::TableNotFound { table } && table@ == table_name@),
            },
    {
        match assoc_get(&self.map, table_name) {
            Some(s) => Ok(s),
            None => Err(StoreError::TableNotFound { table: table_name.to_owned() }),
        }
    }

    /// Verify that `child_name` was discovered as a child of `parent_name`.
    pub fn verify_child_of(&self, child_name: &str, parent_name: &str) -> (r: Result<
        (),
        StoreError,
    >)
        ensures
            r is Ok <==> rel_has(self.parents@, child_name@, parent_name@),
            r matches Err(e) ==> e matches StoreError::NotChildOf { child, parent } && child@
                == child_name@ && parent@ == parent_name@,
    {
        let ok = match assoc_get(&self.parents, child_name) {
            Some(group) => name_in_list(group, parent_name),
            None => false,
        };
        if ok {
            Ok(())
        } else {
            Err(
                StoreError::NotChildOf {
                    child: child_name.to_owned(),
                    parent: parent_name.to_owned(),
                },
            )
        }
    }

    /// Verify that the two tables were discovered as peers.
    pub fn verify_peer_of(&self, peer1_name: &str, peer2_name: &str) -> (r: Result<
        (),
        StoreError,
    >)
        ensures
            r is Ok <==> rel_has(self.peers@, peer1_name@, peer2_name@),
            r matches Err(e) ==> e matches StoreError::NotPeerOf { table, other } && table@
                == peer1_name@ && other@ == peer2_name@,
    {
        let ok = match assoc_get(&self.peers, peer1_name) {
            Some(group) => name_in_list(group, peer2_name),
            None => false,
        };
        if ok {
            Ok(())
        } else {
            Err(
                StoreError::NotPeerOf {
                    table: peer1_name.to_owned(),
                    other: peer2_name.to_owned(),
                },
            )
        }
    }

    /// Get the junction table that stores the peer pairs of a table, or say
    /// that the table has no peers.
    pub fn try_get_peer_link_table_of<'a>(&'a self, table_name: &str) -> (r: Result<
        &'a str,
        StoreError,
    >)
        ensures
            match r {
                Ok(s) => lookup(self.peer_link_tables@, table_name@) matches Some(v) && v@ == s@,
                Err(e) => !has_key(self.peer_link_tables@, table_name@) && (e matches
                    StoreError::NoPeerLinkTable { table } && table@ == table_name@),
            },
    {
        match assoc_get(&self.peer_link_tables, table_name) {
            Some(s) => Ok(s.as_str()),
            None => Err(StoreError::NoPeerLinkTable { table: table_name.to_owned() }),
        }
    }

    /// The parent tables of a child table; empty when none were discovered.
    pub fn get_parents_of(&self, child_name: &str) -> (r: Vec<String>)
        ensures
            match lookup(self.parents@, child_name@) {
                Some(v) => r@.len() == v@.len() && (forall|i: int|
                    0 <= i < v@.len() ==> (#[trigger] r@[i])@ == v@[i]@),
                None => r@.len() == 0,
            },
    {
        match assoc_get(&self.parents, child_name) {
            Some(group) => {
                let mut out: Vec<String> = Vec::new();
                let n = group.len();
                let mut i: usize = 0;
                while i < n
                    invariant
                        0 <= i <= n,
                        n == group@.len(),
                        out@.len() == i,
                        forall|j: int| 0 <= j < i ==> (#[trigger] out@[j])@ == group@[j]@,
                    decreases n - i,
                {
                    out.push(group[i].clone());
                    i = i + 1;
                }
                out
            },
            None => Vec::new(),
        }
    }
}

/// Record `v` among the related names of `k`, leaving every other key's
/// group unchanged; recording an already-present pair changes nothing.
pub fn add_link(m: &mut Vec<(String, Vec<String>)>, k: &str, v: &str)
    requires
        keys_distinct(old(m)@),
    ensures
        keys_distinct(final(m)@),
        forall|a: Seq<char>, b: Seq<char>|
            #[trigger] rel_has(final(m)@, a, b) <==> rel_has(old(m)@, a, b) || (a == k@ && b
                == v@),
        forall|t: Seq<char>| #[trigger] has_key(final(m)@, t) <==> has_key(old(m)@, t) || t == k@,
{
    let ghost m0 = m@;
    match assoc_index(m, k) {
        Some(i) => {
            let entry = &mut m[i];
            let ghost g0 = entry.1@;
            if !name_in_list(&entry.1, v) {
                entry.1.push(v.to_owned());
            }
            proof {
                assert(final(entry).0 == m0[i as int].0);
                assert forall|a: Seq<char>, b: Seq<char>| true implies (#[trigger] rel_has(
                    m@,
                    a,
                    b,
                ) <==> rel_has(m0, a, b) || (a == k@ && b == v@)) by {
                    crate::assoc::lemma_lookup_update(m0, i as int, final(entry).1, a);
                    crate::assoc::lemma_lookup_index(m0, i as int);
                    if a == k@ {
                        assert(lookup(m0, a) == Some(m0[i as int].1));
                        assert forall|b2: Seq<char>| true implies (#[trigger] contains_name(
                            final(entry).1@,
                            b2,
                        ) <==> contains_name(g0, b2) || b2 == v@) by {
                            if contains_name(g0, v@) {
                            } else {
                                if contains_name(final(entry).1@, b2) {
                                    let x = choose|x: int|
                                        0 <= x < final(entry).1@.len() && final(entry).1@[x]@
                                            == b2;
                                    if x < g0.len() {
                                        assert(contains_name(g0, b2));
                                    } else {
                                        assert(b2 == v@);
                                    }
                                }
                                if contains_name(g0, b2) {
                                    let x = choose|x: int| 0 <= x < g0.len() && g0[x]@ == b2;
                                    assert(final(entry).1@[x]@ == b2);
                                }
                                if b2 == v@ {
                                    assert(final(entry).1@[g0.len() as int]@ == b2);
                                }
                            }
                        }
                    }
                }
                assert forall|t: Seq<char>| true implies (#[trigger] has_key(m@, t) <==> has_key(
                    m0,
                    t,
                ) || t == k@) by {
                    crate::assoc::lemma_lookup_update(m0, i as int, final(entry).1, t);
                    crate::assoc::lemma_lookup_index(m0, i as int);
                }
                assert(keys_distinct(m@)) by {
                    assert(forall|x: int|
                        0 <= x < m@.len() ==> (#[trigger] m@[x]).0@ == m0[x].0@);
                }
            }
        },
        None => {
            let mut group: Vec<String> = Vec::new();
            group.push(v.to_owned());
            m.push((k.to_owned(), group));
            proof {
                assert forall|a: Seq<char>, b: Seq<char>| true implies (#[trigger] rel_has(
                    m@,
                    a,
                    b,
                ) <==> rel_has(m0, a, b) || (a == k@ && b == v@)) by {
                    crate::assoc::lemma_lookup_push(m0, (m@[m@.len() - 1]), a);
                    if a == k@ {
                        assert(!has_key(m0, a));
                        assert(m@[m@.len() - 1].1@[0]@ == v@);
                        if rel_has(m@, a, b) && b != v@ {
                            let g = m@[m@.len() - 1].1@;
                            let x = choose|x: int| 0 <= x < g.len() && (#[trigger] g[x])@ == b;
                            assert(x == 0);
                        }
                        if b == v@ {
                            assert(contains_name(m@[m@.len() - 1].1@, b));
                        }
                    }
                }
                assert forall|t: Seq<char>| true implies (#[trigger] has_key(m@, t) <==> has_key(
                    m0,
                    t,
                ) || t == k@) by {
                    crate::assoc::lemma_lookup_push(m0, (m@[m@.len() - 1]), t);
                }
                assert(keys_distinct(m@)) by {
                    crate::assoc::lemma_lookup_exists(m0, k@);
                    assert(forall|x: int| 0 <= x < m0.len() ==> (#[trigger] m@[x]) == m0[x]);
                }
            }
        },
    }
}

/// Bind `k` to the name `v`, replacing any earlier binding and leaving
/// other keys unchanged.
pub fn set_name(m: &mut Vec<(String, String)>, k: &str, v: &str)
    requires
        keys_distinct(old(m)@),
    ensures
        keys_distinct(final(m)@),
        forall|t: Seq<char>|
            t != k@ ==> #[trigger] lookup(final(m)@, t) == lookup(old(m)@, t),
        lookup(final(m)@, k@) matches Some(s) && s@ == v@,
        forall|t: Seq<char>| #[trigger] has_key(final(m)@, t) <==> has_key(old(m)@, t) || t == k@,
{
    let ghost m0 = m@;
    match assoc_index(m, k) {
        Some(i) => {
            let entry = &mut m[i];
            entry.1 = v.to_owned();
            proof {
                assert(final(entry).0 == m0[i as int].0);
                assert forall|t: Seq<char>| true implies {
                    &&& (t != k@ ==> #[trigger] lookup(m@, t) == lookup(m0, t))
                    &&& (t == k@ ==> lookup(m@, t) == Some(final(entry).1))
                    &&& (has_key(m@, t) <==> has_key(m0, t) || t == k@)
                } by {
                    crate::assoc::lemma_lookup_update(m0, i as int, final(entry).1, t);
                    crate::assoc::lemma_lookup_index(m0, i as int);
                }
                assert(keys_distinct(m@)) by {
                    assert(forall|x: int|
                        0 <= x < m@.len() ==> (#[trigger] m@[x]).0@ == m0[x].0@);
                }
            }
        },
        None => {
            m.push((k.to_owned(), v.to_owned()));
            proof {
                assert forall|t: Seq<char>| true implies {
                    &&& (t != k@ ==> #[trigger] lookup(m@, t) == lookup(m0, t))
                    &&& (t == k@ ==> (lookup(m@, t) matches Some(s) && s@ == v@))
                    &&& (has_key(m@, t) <==> has_key(m0, t) || t == k@)
                } by {
                    crate::assoc::lemma_lookup_push(m0, m@[m@.len() - 1], t);
                }
                assert(keys_distinct(m@)) by {
                    crate::assoc::lemma_lookup_exists(m0, k@);
                    assert(forall|x: int| 0 <= x < m0.len() ==> (#[trigger] m@[x]) == m0[x]);
                }
            }
        },
    }
}

} // verus!
