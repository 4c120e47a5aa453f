use paradox_server::api::tables::{
    key_set, parse_bool, picked_columns, ColumnType, FdbValue, ValueSet,
};
use assembly_fdb::FdbHash;
use latin1str::Latin1Str;
use std::collections::BTreeSet;

#[test]
fn key_buckets() {
    let ints = ValueSet::Integer(BTreeSet::from([1, -1, 17]));
    assert_eq!(ints.bucket_set(16), BTreeSet::from([1, 15]));
    assert_eq!(ints.bucket_set(1), BTreeSet::from([0]));
    let big = ValueSet::BigInt(BTreeSet::from([(1i64 << 32) + 5, -2]));
    assert_eq!(big.bucket_set(8), BTreeSet::from([5, 6]));
    let both = ValueSet::Boolean { _true: true, _false: true };
    assert_eq!(both.bucket_set(4), BTreeSet::from([0, 1]));
    assert_eq!(both.bucket_set(1), BTreeSet::from([0]));
    let only_true = ValueSet::Boolean { _true: true, _false: false };
    assert_eq!(only_true.bucket_set(3), BTreeSet::from([1]));
    assert_eq!(ValueSet::Float.bucket_set(3), BTreeSet::new());
    let texts = ValueSet::Text(vec!["a".to_string(), "b".to_string()]);
    assert_eq!(texts.bucket_set(1), BTreeSet::from([0]));
    assert!(texts.bucket_set(1024).len() <= 2);
}

#[test]
fn asked_keys() {
    let ints = ValueSet::Integer(BTreeSet::from([3, 4]));
    assert!(ints.contains(&FdbValue::Integer(3)));
    assert!(!ints.contains(&FdbValue::Integer(5)));
    assert!(!ints.contains(&FdbValue::BigInt(3)));
    let texts = ValueSet::Text(vec!["Frühling".to_string()]);
    assert!(texts.contains(&FdbValue::Text(b"Fr\xFChling".to_vec())));
    assert!(!texts.contains(&FdbValue::Text("Frühling".as_bytes().to_vec())));
    let no = ValueSet::Boolean { _true: false, _false: true };
    assert!(no.contains(&FdbValue::Boolean(false)));
    assert!(!no.contains(&FdbValue::Boolean(true)));
    assert!(!ValueSet::Nothing.contains(&FdbValue::Nothing));
    assert!(ValueSet::BigInt(BTreeSet::from([-7])).contains(&FdbValue::BigInt(-7)));
}

#[test]
fn primary_keys_as_text() {
    match key_set("-12", ColumnType::Integer) {
        Some(ValueSet::Integer(s)) => assert_eq!(s, BTreeSet::from([-12])),
        other => panic!("{:?}", other),
    }
    assert!(key_set("12x", ColumnType::Integer).is_none());
    assert!(key_set("4294967296", ColumnType::Integer).is_none());
    match key_set("4294967296", ColumnType::BigInt) {
        Some(ValueSet::BigInt(s)) => assert_eq!(s, BTreeSet::from([1i64 << 32])),
        other => panic!("{:?}", other),
    }
    assert!(key_set("9223372036854775808", ColumnType::BigInt).is_none());
    match key_set("-9223372036854775808", ColumnType::BigInt) {
        Some(ValueSet::BigInt(s)) => assert_eq!(s, BTreeSet::from([i64::MIN])),
        other => panic!("{:?}", other),
    }
    match key_set("TRUE", ColumnType::Boolean) {
        Some(ValueSet::Boolean { _true, _false }) => assert!(_true && !_false),
        other => panic!("{:?}", other),
    }
    match key_set("0", ColumnType::Boolean) {
        Some(ValueSet::Boolean { _true, _false }) => assert!(!_true && _false),
        other => panic!("{:?}", other),
    }
    assert!(key_set("True", ColumnType::Boolean).is_none());
    match key_set("Frühling", ColumnType::Text) {
        Some(ValueSet::Text(t)) => assert_eq!(t, vec!["Frühling".to_string()]),
        other => panic!("{:?}", other),
    }
    assert!(matches!(key_set("1.5", ColumnType::Float), Some(ValueSet::Float)));
    assert!(matches!(key_set("x", ColumnType::Nothing), Some(ValueSet::Nothing)));
    assert!(key_set("x", ColumnType::VarChar).is_none());
    assert_eq!(parse_bool("1"), Some(true));
    assert_eq!(parse_bool("FALSE"), Some(false));
    assert_eq!(parse_bool("yes"), None);
}

#[test]
fn query_columns() {
    let names: Vec<String> = ["id", "name", "type", "desc"].iter().map(|s| s.to_string()).collect();
    let cols: Vec<String> = ["desc", "id", "other"].iter().map(|s| s.to_string()).collect();
    assert_eq!(picked_columns(&names, &cols), vec![0, 3]);
    assert_eq!(picked_columns(&names, &Vec::new()), Vec::<usize>::new());
}

#[test]
fn asked_keys_lie_in_read_buckets() {
    let n = 37usize;
    let bytes: &[u8] = b"Fr\xFChling";
    let texts = ValueSet::Text(vec!["Frühling".to_string(), "b".to_string()]);
    assert!(texts.contains(&FdbValue::Text(bytes.to_vec())));
    let h = FdbHash::hash(Latin1Str::from_bytes_until_nul(bytes)) as usize % n;
    assert!(texts.bucket_set(n).contains(&h));
    let ints = ValueSet::Integer(BTreeSet::from([-5, 40]));
    for k in [-5i32, 40] {
        assert!(ints.contains(&FdbValue::Integer(k)));
        assert!(ints.bucket_set(n).contains(&((k as u32) as usize % n)));
    }
    let big = ValueSet::BigInt(BTreeSet::from([i64::MIN + 3]));
    assert!(big.bucket_set(n).contains(&(((i64::MIN + 3) as u64 & 0xFFFF_FFFF) as usize % n)));
}

#[test]
fn rows_are_picked_by_their_keys() {
    let ints = ValueSet::Integer(BTreeSet::from([3, 7]));
    let keys = vec![
        Some(FdbValue::Integer(7)),
        None,
        Some(FdbValue::Integer(4)),
        Some(FdbValue::Integer(3)),
        Some(FdbValue::BigInt(3)),
        Some(FdbValue::Integer(7)),
    ];
    assert_eq!(ints.picked_rows(&keys), vec![0, 3, 5]);
    assert_eq!(ValueSet::Float.picked_rows(&keys), Vec::<usize>::new());
    assert_eq!(ints.picked_rows(&vec![]), Vec::<usize>::new());
}
