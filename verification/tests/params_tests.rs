use aliyun_sdk::params::ParamMap;

fn insert_str(p: &mut ParamMap, k: &str, v: &str) {
    p.insert(k.as_bytes().to_vec(), v.as_bytes().to_vec());
}

#[test]
fn test_canonical_sorts_and_encodes() {
    let mut p = ParamMap::new();
    insert_str(&mut p, "a b", "c*d");
    insert_str(&mut p, "Zkey", "t~e");
    insert_str(&mut p, "a", "x=y");
    assert_eq!(p.canonical_string(), b"Zkey=t~e&a=x%3Dy&a%20b=c%2Ad".to_vec());
}

#[test]
fn test_canonical_independent_of_insertion_order() {
    let mut p1 = ParamMap::new();
    insert_str(&mut p1, "Action", "DescribeRegions");
    insert_str(&mut p1, "Format", "JSON");
    insert_str(&mut p1, "Version", "2014-05-26");
    let mut p2 = ParamMap::new();
    insert_str(&mut p2, "Version", "2014-05-26");
    insert_str(&mut p2, "Action", "DescribeRegions");
    insert_str(&mut p2, "Format", "JSON");
    assert_eq!(p1.canonical_string(), p2.canonical_string());
    assert_eq!(
        p1.canonical_string(),
        b"Action=DescribeRegions&Format=JSON&Version=2014-05-26".to_vec()
    );
}

#[test]
fn test_canonical_changes_with_any_value() {
    let mut p1 = ParamMap::new();
    insert_str(&mut p1, "Action", "DescribeRegions");
    insert_str(&mut p1, "RegionId", "cn-hangzhou");
    let mut p2 = ParamMap::new();
    insert_str(&mut p2, "Action", "DescribeRegions");
    insert_str(&mut p2, "RegionId", "cn-beijing");
    assert_ne!(p1.canonical_string(), p2.canonical_string());
}

#[test]
fn test_insert_overwrites() {
    let mut p = ParamMap::new();
    insert_str(&mut p, "k", "old");
    insert_str(&mut p, "k", "new");
    assert_eq!(p.len(), 1);
    assert_eq!(p.get(b"k"), Some(&b"new".to_vec()));
}

#[test]
fn test_insert_if_absent_keeps_existing() {
    let mut p = ParamMap::new();
    insert_str(&mut p, "k", "caller");
    p.insert_if_absent(b"k".to_vec(), b"injected".to_vec());
    p.insert_if_absent(b"fresh".to_vec(), b"injected".to_vec());
    assert_eq!(p.get(b"k"), Some(&b"caller".to_vec()));
    assert_eq!(p.get(b"fresh"), Some(&b"injected".to_vec()));
}

#[test]
fn test_contains_and_get() {
    let mut p = ParamMap::new();
    assert_eq!(p.len(), 0);
    assert!(!p.contains_key(b"k"));
    assert_eq!(p.get(b"k"), None);
    insert_str(&mut p, "k", "v");
    assert!(p.contains_key(b"k"));
    assert_eq!(p.get(b"k"), Some(&b"v".to_vec()));
}

#[test]
fn test_empty_canonical_is_empty() {
    let p = ParamMap::new();
    assert_eq!(p.canonical_string(), Vec::<u8>::new());
}

#[test]
fn test_prefix_key_sorts_first() {
    // A key that is a strict prefix of another sorts before it.
    let mut p = ParamMap::new();
    insert_str(&mut p, "ab", "2");
    insert_str(&mut p, "a", "1");
    assert_eq!(p.canonical_string(), b"a=1&ab=2".to_vec());
}
