//! The closed set of primitive column types and values that the store works
//! with, mirroring the storage classes of the underlying database.

use vstd::prelude::*;

use crate::strutil::{check_blank_text, is_blank_text, str_eq};

verus! {

/// The declared type of a column: one of the four usable primitive storage
/// classes, or `Null` for a declaration that maps to none of them.
#[derive(Debug, Clone, Copy, PartialEq, Eq, Structural)]
pub enum DbType {
    Integer,
    Real,
    Text,
    Blob,
    Null,
}

/// A single stored value.
///
/// A real number is carried as the raw bit pattern of its IEEE-754 double
/// (`f64::to_bits`); the store never does arithmetic on it, it only moves it
/// between the caller and the database.
#[derive(Debug, PartialEq)]
pub enum DbValue {
    Integer(i64),
    /// IEEE-754 bit pattern of the double value.
    Real(u64),
    Text(String),
    Blob(Vec<u8>),
    Null,
}

/// The mathematical model of a stored value: texts as character sequences,
/// blobs as byte sequences.
pub enum DbVal {
    Int(int),
    Real(u64),
    Text(Seq<char>),
    Blob(Seq<u8>),
    Null,
}

impl DbVal {
    /// The storage class a value belongs to.
    pub open spec fn type_of(self) -> DbType {
        match self {
            DbVal::Int(_) => DbType::Integer,
            DbVal::Real(_) => DbType::Real,
            DbVal::Text(_) => DbType::Text,
            DbVal::Blob(_) => DbType::Blob,
            DbVal::Null => DbType::Null,
        }
    }

    /// A value counts as empty when it is NULL, a blank text, or a
    /// zero-length blob.
    pub open spec fn is_empty_val(self) -> bool {
        match self {
            DbVal::Null => true,
            DbVal::Text(s) => is_blank_text(s),
            DbVal::Blob(b) => b.len() == 0,
            _ => false,
        }
    }
}

impl View for DbValue {
    type V = DbVal;

    open spec fn view(&self) -> DbVal {
        match self {
            DbValue::Integer(i) => DbVal::Int(*i as int),
            DbValue::Real(b) => DbVal::Real(*b),
            DbValue::Text(s) => DbVal::Text(s@),
            DbValue::Blob(b) => DbVal::Blob(b@),
            DbValue::Null => DbVal::Null,
        }
    }
}

impl Clone for DbValue {
    /// A clone carries the same modeled value.
    fn clone(&self) -> (res: Self)
        ensures
            res@ == self@,
    {
        match self {
            DbValue::Integer(i) => DbValue::Integer(*i),
            DbValue::Real(b) => DbValue::Real(*b),
            DbValue::Text(s) => DbValue::Text(s.clone()),
            DbValue::Blob(b) => {
                let c = b.clone();
                proof {
                    assert(c@ =~= b@);
                }
                DbValue::Blob(c)
            },
            DbValue::Null => DbValue::Null,
        }
    }
}

impl DbValue {
    /// The storage class of this value.
    pub fn data_type(&self) -> (t: DbType)
        ensures
            t == self@.type_of(),
    {
        match self {
            DbValue::Integer(_) => DbType::Integer,
            DbValue::Real(_) => DbType::Real,
            DbValue::Text(_) => DbType::Text,
            DbValue::Blob(_) => DbType::Blob,
            DbValue::Null => DbType::Null,
        }
    }

    /// Whether this value counts as empty.
    pub fn empty_check(&self) -> (r: bool)
        ensures
            r == self@.is_empty_val(),
    {
        match self {
            DbValue::Null => true,
            DbValue::Text(s) => check_blank_text(s.as_str()),
            DbValue::Blob(b) => b.len() == 0,
            _ => false,
        }
    }

    /// Whether this value models the same value as `other`.
    pub fn same_as(&self, other: &DbValue) -> (r: bool)
        ensures
            r == (self@ == other@),
    {
        match (self, other) {
            (DbValue::Integer(a), DbValue::Integer(b)) => a == b,
            (DbValue::Real(a), DbValue::Real(b)) => a == b,
            (DbValue::Text(a), DbValue::Text(b)) => str_eq(a.as_str(), b.as_str()),
            (DbValue::Blob(a), DbValue::Blob(b)) => bytes_eq(a, b),
            (DbValue::Null, DbValue::Null) => true,
            _ => false,
        }
    }
}

/// A record as the store sees it: column names with their values, in a
/// fixed order with distinct names.
pub type RecordOwned = Vec<(String, DbValue)>;

/// A list of records returned from the database.
pub type RecordListOwned = Vec<RecordOwned>;

/// Whether two byte vectors hold the same bytes.
pub fn bytes_eq(a: &Vec<u8>, b: &Vec<u8>) -> (r: bool)
    ensures
        r == (a@ == b@),
{
    if a.len() != b.len() {
        return false;
    }
    let mut i: usize = 0;
    while i < a.len()
        invariant
            0 <= i <= a@.len(),
            a@.len() == b@.len(),
            forall|j: int| 0 <= j < i ==> a@[j] == b@[j],
        decreases a@.len() - i,
    {
        if a[i] != b[i] {
            return false;
        }
        i = i + 1;
    }
    proof {
        assert(a@ =~= b@);
    }
    true
}

/// Whether two values belong to the same storage class.
pub fn are_same_type(val1: &DbValue, val2: &DbValue) -> (r: bool)
    ensures
        r == (val1@.type_of() == val2@.type_of()),
{
    let t1 = val1.data_type();
    let t2 = val2.data_type();
    t1 == t2
}

/// Create a text value.
pub fn v_txt(id: &str) -> (r: DbValue)
    ensures
        r@ == DbVal::Text(id@),
{
    DbValue::Text(id.to_owned())
}

/// Create an integer value.
pub fn v_int(id: i64) -> (r: DbValue)
    ensures
        r@ == DbVal::Int(id as int),
{
    DbValue::Integer(id)
}

/// Create a blob value.
pub fn v_blo(id: &[u8]) -> (r: DbValue)
    ensures
        r@ == DbVal::Blob(id@),
{
    DbValue::Blob(vstd::slice::slice_to_vec(id))
}

} // verus!
