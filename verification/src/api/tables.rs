//! The primary keys a table query asks for, and where the database file
//! keeps the rows of such keys.
//!
//! The database file keeps each table's rows in buckets: a row is in the
//! bucket of its primary key's hash, modulo the number of buckets. A query
//! for some keys only reads the buckets those keys hash to.

use vstd::prelude::*;
use vstd::std_specs::iter::IteratorSpec;
use std::collections::BTreeSet;
use crate::text::{parse_i32, parse_i64, spec_parse_i32, spec_parse_i64, str_chars};

verus! {

broadcast use vstd::string::group_string_axioms;

/// What the database file's hash of the bytes of a text key is.
pub uninterp spec fn fdb_bytes_hash(b: Seq<u8>) -> u32;

/// What the Latin-1 (Windows-1252) encoding of a text is.
pub uninterp spec fn latin1_encoding(s: Seq<char>) -> Seq<u8>;

/// The database file's hash of a text: the hash of its Latin-1 bytes.
pub open spec fn fdb_text_hash(s: Seq<char>) -> u32 {
    fdb_bytes_hash(latin1_encoding(s))
}

/// The hash of an integer key.
///
/// Trusted: `assembly_fdb::FdbHash` for `i32` takes the integer's bits as
/// a `u32`.
#[verifier::external_body]
fn fdb_i32_hash(v: i32) -> (r: u32)
    ensures
        r == v as u32,
{
    assembly_fdb::FdbHash::hash(&v)
}

/// The hash of a big integer key.
///
/// Trusted: `assembly_fdb::FdbHash` for `i64` takes the low 32 bits of the
/// integer's bits.
#[verifier::external_body]
fn fdb_i64_hash(v: i64) -> (r: u32)
    ensures
        r == v as u32,
{
    assembly_fdb::FdbHash::hash(&v)
}

/// The hash of a text key.
///
/// Trusted: `assembly_fdb::FdbHash` for `str` encodes the text in Latin-1
/// and hashes those bytes as the database file hashes a text key; the
/// encoding and the hash of bytes are named, not stated.
#[verifier::external_body]
fn fdb_str_hash(s: &str) -> (r: u32)
    ensures
        r == fdb_bytes_hash(latin1_encoding(s@)),
{
    assembly_fdb::FdbHash::hash(s)
}

/// The Latin-1 bytes of a text.
///
/// Trusted: calls `latin1str::Latin1String::encode`; the result is named,
/// not stated.
#[verifier::external_body]
fn latin1_encode(s: &str) -> (r: Vec<u8>)
    ensures
        r@ == latin1_encoding(s@),
{
    latin1str::Latin1String::encode(s).as_bytes().to_vec()
}

/// A value of the database file, as far as keys go: a float or an XML text
/// is never a key.
#[derive(Debug, Clone, PartialEq, Eq)]
pub enum FdbValue {
    Nothing,
    Integer(i32),
    Float,
    Text(Vec<u8>),
    Boolean(bool),
    BigInt(i64),
    VarChar,
}

/// The keys a query asks for, by the type of the table's key column.
#[derive(Debug)]
pub enum ValueSet {
    /// The null type: no key.
    Nothing,
    /// Integer keys.
    Integer(BTreeSet<i32>),
    /// Float keys: none.
    Float,
    /// Text keys, as the query gives them.
    Text(Vec<String>),
    /// Boolean keys: whether `true`, and whether `false`, is asked for.
    Boolean { _true: bool, _false: bool },
    /// Big integer keys.
    BigInt(BTreeSet<i64>),
    /// XML text keys: none.
    VarChar,
}

/// The type of a column of the database file.
#[derive(Debug, Clone, Copy, PartialEq, Eq, Structural)]
pub enum ColumnType {
    Nothing,
    Integer,
    Float,
    Text,
    Boolean,
    BigInt,
    VarChar,
}

/// A boolean written as text: `true`, `1` or `TRUE`, and `false`, `0` or
/// `FALSE`.
pub open spec fn spec_parse_bool(v: Seq<char>) -> Option<bool> {
    if v == "true"@ || v == "1"@ || v == "TRUE"@ {
        Some(true)
    } else if v == "false"@ || v == "0"@ || v == "FALSE"@ {
        Some(false)
    } else {
        None
    }
}

/// Reads a boolean written as text.
pub fn parse_bool(v: &str) -> (r: Option<bool>)
    ensures
        r == spec_parse_bool(v@),
{
    let c = str_chars(v);
    let t = crate::text::chars_eq_str(c.as_slice(), "true") || crate::text::chars_eq_str(c.as_slice(), "1")
        || crate::text::chars_eq_str(c.as_slice(), "TRUE");
    let f = crate::text::chars_eq_str(c.as_slice(), "false") || crate::text::chars_eq_str(c.as_slice(), "0")
        || crate::text::chars_eq_str(c.as_slice(), "FALSE");
    if t {
        Some(true)
    } else if f {
        Some(false)
    } else {
        None
    }
}

/// What a primary key written as `v` asks for in a column of type `ty`:
/// the key read as a number or a boolean, or the text itself. A key that
/// does not read as the column's type asks for nothing (`None`), nor does
/// a key of an XML text column. A float key is read and compared outside
/// the library: its set is `ValueSet::Float`.
pub open spec fn key_set_is(v: Seq<char>, ty: ColumnType, r: Option<ValueSet>) -> bool {
    match ty {
        ColumnType::Nothing => r matches Some(ValueSet::Nothing),
        ColumnType::Integer => match spec_parse_i32(v) {
            Some(i) => r matches Some(ValueSet::Integer(s)) && s@ == set![i],
            None => r is None,
        },
        ColumnType::Float => r matches Some(ValueSet::Float),
        ColumnType::Text => r matches Some(ValueSet::Text(t)) && t@.len() == 1 && t@[0]@ == v,
        ColumnType::Boolean => match spec_parse_bool(v) {
            Some(b) => r == Some(ValueSet::Boolean { _true: b, _false: !b }),
            None => r is None,
        },
        ColumnType::BigInt => match spec_parse_i64(v) {
            Some(i) => r matches Some(ValueSet::BigInt(s)) && s@ == set![i],
            None => r is None,
        },
        ColumnType::VarChar => r is None,
    }
}

/// The keys that the primary key written as `v` asks for in a column of
/// type `ty`.
pub fn key_set(v: &str, ty: ColumnType) -> (r: Option<ValueSet>)
    ensures
        key_set_is(v@, ty, r),
{
    proof {
        lemma_keys_ordered();
    }
    match ty {
        ColumnType::Nothing => Some(ValueSet::Nothing),
        ColumnType::Integer => {
            let c = str_chars(v);
            match parse_i32(c.as_slice()) {
                Some(i) => {
                    let mut s: BTreeSet<i32> = BTreeSet::new();
                    s.insert(i);
                    assert(s@ =~= set![i]);
                    Some(ValueSet::Integer(s))
                },
                None => None,
            }
        },
        ColumnType::Float => Some(ValueSet::Float),
        ColumnType::Text => {
            let mut t: Vec<String> = Vec::new();
            t.push(v.to_string());
            Some(ValueSet::Text(t))
        },
        ColumnType::Boolean => match parse_bool(v) {
            Some(b) => Some(ValueSet::Boolean { _true: b, _false: !b }),
            None => None,
        },
        ColumnType::BigInt => {
            let c = str_chars(v);
            match parse_i64(c.as_slice()) {
                Some(i) => {
                    let mut s: BTreeSet<i64> = BTreeSet::new();
                    s.insert(i);
                    assert(s@ =~= set![i]);
                    Some(ValueSet::BigInt(s))
                },
                None => None,
            }
        },
        ColumnType::VarChar => None,
    }
}

/// Whether the names hold `name`.
pub open spec fn names_hold(names: Seq<String>, name: Seq<char>) -> bool {
    exists|j: int| 0 <= j < names.len() && (#[trigger] names[j])@ == name
}

/// The positions of the table's columns that a query names, in the
/// table's order.
pub fn picked_columns(names: &Vec<String>, columns: &Vec<String>) -> (r: Vec<usize>)
    ensures
        forall|k: int| 0 <= k < r@.len() ==> r@[k] < names@.len(),
        forall|k: int, l: int| 0 <= k < l < r@.len() ==> r@[k] < r@[l],
        forall|i: int| 0 <= i < names@.len() ==> (r@.contains(i as usize) <==> names_hold(columns@, names@[i]@)),
{
    let mut r: Vec<usize> = Vec::new();
    for i in 0..names.len()
        invariant
            forall|k: int| 0 <= k < r@.len() ==> r@[k] < i,
            forall|k: int, l: int| 0 <= k < l < r@.len() ==> r@[k] < r@[l],
            forall|x: int| 0 <= x < i ==> (r@.contains(x as usize) <==> names_hold(columns@, names@[x]@)),
    {
        let mut found = false;
        for j in 0..columns.len()
            invariant
                i < names@.len(),
                found <==> exists|m: int| 0 <= m < j && (#[trigger] columns@[m])@ == names@[i as int]@,
        {
            if columns[j] == names[i] {
                found = true;
            }
        }
        let ghost before = r@;
        if found {
            r.push(i);
        }
        assert forall|x: int| 0 <= x < i + 1 implies (r@.contains(x as usize) <==> names_hold(columns@, names@[x]@)) by {
            if x < i {
                if r@.contains(x as usize) && !before.contains(x as usize) {
                    assert(r@.last() == i);
                }
                if before.contains(x as usize) {
                    let k = choose|k: int| 0 <= k < before.len() && before[k] == x as usize;
                    assert(r@[k] == x as usize);
                }
            } else {
                if !found {
                    assert forall|k: int| 0 <= k < r@.len() implies r@[k] != i by {}
                } else {
                    assert(r@[r@.len() - 1] == i);
                }
            }
        }
    }
    r
}

/// Whether the texts hold one whose encoding is `bytes`.
pub open spec fn has_encoded(texts: Seq<String>, bytes: Seq<u8>) -> bool {
    exists|i: int| 0 <= i < texts.len() && latin1_encoding(#[trigger] texts[i]@) == bytes
}

/// Whether the set asks for key `pk`.
pub open spec fn asks_for(set: ValueSet, pk: FdbValue) -> bool {
    match set {
        ValueSet::Integer(s) => pk matches FdbValue::Integer(i) && s@.contains(i),
        ValueSet::Text(s) => pk matches FdbValue::Text(b) && has_encoded(s@, b@),
        ValueSet::Boolean { _true, _false } => match pk {
            FdbValue::Boolean(true) => _true,
            FdbValue::Boolean(false) => _false,
            _ => false,
        },
        ValueSet::BigInt(s) => pk matches FdbValue::BigInt(i) && s@.contains(i),
        _ => false,
    }
}

/// The bucket of a hash among `n` buckets.
pub open spec fn bucket(h: u32, n: usize) -> usize {
    (h as usize % n) as usize
}

/// The buckets that the keys of the set are in, among `n` buckets.
pub open spec fn buckets_of(set: ValueSet, n: usize) -> Set<usize> {
    match set {
        ValueSet::Integer(s) => Set::new(|b: usize| exists|i: i32| s@.contains(i) && b == bucket(i as u32, n)),
        ValueSet::Text(s) => Set::new(
            |b: usize| exists|k: int| 0 <= k < s@.len() && b == bucket(fdb_text_hash(#[trigger] s@[k]@), n),
        ),
        ValueSet::Boolean { _true, _false } => Set::new(|b: usize| (_true && b == 1usize % n) || (_false && b == 0usize)),
        ValueSet::BigInt(s) => Set::new(|b: usize| exists|i: i64| s@.contains(i) && b == bucket(i as u32, n)),
        _ => Set::empty(),
    }
}

/// The hash under which the database file keeps a row whose primary key
/// is `pk`.
pub open spec fn key_hash(pk: FdbValue) -> u32 {
    match pk {
        FdbValue::Integer(i) => i as u32,
        FdbValue::BigInt(i) => i as u32,
        FdbValue::Boolean(b) => if b {
            1
        } else {
            0
        },
        FdbValue::Text(b) => fdb_bytes_hash(b@),
        _ => 0,
    }
}

/// Every key that a set asks for lies in one of the buckets that the set
/// reads: a query that reads only those buckets misses no row it asks for.
pub proof fn lemma_asked_key_in_buckets(set: ValueSet, pk: FdbValue, n: usize)
    requires
        n > 0,
        asks_for(set, pk),
    ensures
        buckets_of(set, n).contains(bucket(key_hash(pk), n)),
{
    match set {
        ValueSet::Integer(s) => {
            let i = pk->Integer_0;
            assert(s@.contains(i) && bucket(key_hash(pk), n) == bucket(i as u32, n));
        },
        ValueSet::BigInt(s) => {
            let i = pk->BigInt_0;
            assert(s@.contains(i) && bucket(key_hash(pk), n) == bucket(i as u32, n));
        },
        ValueSet::Text(s) => {
            let b = pk->Text_0;
            let k = choose|k: int| 0 <= k < s@.len() && latin1_encoding(#[trigger] s@[k]@) == b@;
            assert(bucket(key_hash(pk), n) == bucket(fdb_text_hash(s@[k]@), n));
        },
        ValueSet::Boolean { _true, _false } => {
            assert(bucket(1, n) == 1usize % n);
            assert(0usize % n == 0usize) by (nonlinear_arith)
                requires
                    n > 0,
            ;
            assert(bucket(0, n) == 0usize);
        },
        _ => {},
    }
}

proof fn lemma_keys_ordered()
    ensures
        vstd::laws_cmp::obeys_cmp::<i32>(),
        vstd::laws_cmp::obeys_cmp::<i64>(),
{
}

/// The positions, in order, of the rows of `keys` whose primary key the
/// set asks for; a row without a key is never picked.
pub open spec fn picked_positions(set: ValueSet, keys: Seq<Option<FdbValue>>) -> Seq<usize>
    decreases keys.len(),
{
    if keys.len() == 0 {
        Seq::empty()
    } else {
        let rest = picked_positions(set, keys.drop_last());
        match keys.last() {
            Some(k) => if asks_for(set, k) {
                rest.push((keys.len() - 1) as usize)
            } else {
                rest
            },
            None => rest,
        }
    }
}

impl ValueSet {
    /// Picks, out of the primary keys of the rows of a bucket, the rows
    /// that the set asks for.
    pub fn picked_rows(&self, keys: &Vec<Option<FdbValue>>) -> (r: Vec<usize>)
        ensures
            r@ == picked_positions(*self, keys@),
    {
        let mut r: Vec<usize> = Vec::new();
        for i in 0..keys.len()
            invariant
                r@ == picked_positions(*self, keys@.take(i as int)),
        {
            assert(keys@.take(i + 1).drop_last() =~= keys@.take(i as int));
            match &keys[i] {
                Some(k) => {
                    if self.contains(k) {
                        r.push(i);
                    }
                },
                None => {},
            }
        }
        assert(keys@.take(keys@.len() as int) =~= keys@);
        r
    }

    /// Whether the set asks for key `pk`.
    pub fn contains(&self, pk: &FdbValue) -> (r: bool)
        ensures
            r == asks_for(*self, *pk),
    {
        match self {
            ValueSet::Nothing | ValueSet::Float | ValueSet::VarChar => false,
            ValueSet::Integer(s) => match pk {
                FdbValue::Integer(i) => s.contains(i),
                _ => false,
            },
            ValueSet::Text(s) => match pk {
                FdbValue::Text(b) => {
                    let mut i: usize = 0;
                    while i < s.len()
                        invariant
                            *self == ValueSet::Text(*s),
                            *pk == FdbValue::Text(*b),
                            i <= s@.len(),
                            forall|j: int| 0 <= j < i ==> latin1_encoding(#[trigger] s@[j]@) != b@,
                        decreases s@.len() - i,
                    {
                        let e = latin1_encode(s[i].as_str());
                        if crate::api::bytes_eq(e.as_slice(), b.as_slice()) {
                            assert(latin1_encoding(s@[i as int]@) == b@);
                            return true;
                        }
                        i = i + 1;
                    }
                    false
                },
                _ => false,
            },
            ValueSet::Boolean { _true, _false } => match pk {
                FdbValue::Boolean(true) => *_true,
                FdbValue::Boolean(false) => *_false,
                _ => false,
            },
            ValueSet::BigInt(s) => match pk {
                FdbValue::BigInt(i) => s.contains(i),
                _ => false,
            },
        }
    }

    /// The buckets, among `bucket_count`, that the keys of the set are in.
    pub fn bucket_set(&self, bucket_count: usize) -> (r: BTreeSet<usize>)
        requires
            bucket_count > 0,
        ensures
            r@ == buckets_of(*self, bucket_count),
    {
        proof {
            lemma_keys_ordered();
        }
        let mut r: BTreeSet<usize> = BTreeSet::new();
        match self {
            ValueSet::Integer(s) => {
                let ghost full = vstd::std_specs::btree::spec_btree_keys_iter(s).remaining();
                for x in it: s.iter()
                    invariant
                        bucket_count > 0,
                        it.seq() == full,
                        full.unref().to_set() == s@,
                        r@ == Set::new(
                            |b: usize| exists|k: int| 0 <= k < it.index() && b == bucket(*full[k] as u32, bucket_count),
                        ),
                {
                    let ghost before = r@;
                    let h = fdb_i32_hash(*x);
                    r.insert((h as usize) % bucket_count);
                    assert(r@ =~= Set::new(
                        |b: usize| exists|k: int| 0 <= k < it.index() + 1 && b == bucket(*full[k] as u32, bucket_count),
                    )) by {
                        assert(*full[it.index() as int] == *x);
                    }
                }
                proof {
                    assert(r@ =~= buckets_of(*self, bucket_count)) by {
                        assert forall|b: usize| r@.contains(b) implies buckets_of(*self, bucket_count).contains(b) by {
                            let k = choose|k: int| 0 <= k < full.len() && b == bucket(*full[k] as u32, bucket_count);
                            assert(full.unref().to_set().contains(full.unref()[k]));
                        }
                        assert forall|b: usize| buckets_of(*self, bucket_count).contains(b) implies r@.contains(b) by {
                            let i = choose|i: i32| s@.contains(i) && b == bucket(i as u32, bucket_count);
                            assert(full.unref().to_set().contains(i));
                            let k = choose|k: int| 0 <= k < full.unref().len() && full.unref()[k] == i;
                            assert(*full[k] == i);
                        }
                    }
                }
            },
            ValueSet::BigInt(s) => {
                let ghost full = vstd::std_specs::btree::spec_btree_keys_iter(s).remaining();
                for x in it: s.iter()
                    invariant
                        bucket_count > 0,
                        it.seq() == full,
                        full.unref().to_set() == s@,
                        r@ == Set::new(
                            |b: usize| exists|k: int| 0 <= k < it.index() && b == bucket(*full[k] as u32, bucket_count),
                        ),
                {
                    let h = fdb_i64_hash(*x);
                    r.insert((h as usize) % bucket_count);
                    assert(r@ =~= Set::new(
                        |b: usize| exists|k: int| 0 <= k < it.index() + 1 && b == bucket(*full[k] as u32, bucket_count),
                    )) by {
                        assert(*full[it.index() as int] == *x);
                    }
                }
                proof {
                    assert(r@ =~= buckets_of(*self, bucket_count)) by {
                        assert forall|b: usize| r@.contains(b) implies buckets_of(*self, bucket_count).contains(b) by {
                            let k = choose|k: int| 0 <= k < full.len() && b == bucket(*full[k] as u32, bucket_count);
                            assert(full.unref().to_set().contains(full.unref()[k]));
                        }
                        assert forall|b: usize| buckets_of(*self, bucket_count).contains(b) implies r@.contains(b) by {
                            let i = choose|i: i64| s@.contains(i) && b == bucket(i as u32, bucket_count);
                            assert(full.unref().to_set().contains(i));
                            let k = choose|k: int| 0 <= k < full.unref().len() && full.unref()[k] == i;
                            assert(*full[k] == i);
                        }
                    }
                }
            },
            ValueSet::Text(s) => {
                for k in 0..s.len()
                    invariant
                        bucket_count > 0,
                        r@ == Set::new(
                            |b: usize| exists|j: int| 0 <= j < k && b == bucket(fdb_text_hash(#[trigger] s@[j]@), bucket_count),
                        ),
                {
                    let h = fdb_str_hash(s[k].as_str());
                    r.insert((h as usize) % bucket_count);
                    assert(r@ =~= Set::new(
                        |b: usize| exists|j: int| 0 <= j < k + 1 && b == bucket(fdb_text_hash(#[trigger] s@[j]@), bucket_count),
                    ));
                }
                assert(r@ =~= buckets_of(*self, bucket_count));
            },
            ValueSet::Boolean { _true, _false } => {
                let true_mod = 1 % bucket_count;
                if *_false {
                    r.insert(0);
                }
                if *_true {
                    r.insert(true_mod);
                }
                assert(r@ =~= buckets_of(*self, bucket_count));
            },
            _ => {
                assert(r@ =~= buckets_of(*self, bucket_count));
            },
        }
        r
    }
}

} // verus!
