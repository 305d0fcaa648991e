use eleph_gen_wordpress::json::{b, copy, s, Json};
use eleph_gen_wordpress::render::render;

#[test]
fn numbers_read_as_u64_only_when_plain_digits() {
    assert_eq!(Json::Number("1".to_string()).as_u64(), Some(1));
    assert_eq!(Json::Number("18446744073709551615".to_string()).as_u64(), Some(u64::MAX));
    assert_eq!(Json::Number("18446744073709551616".to_string()).as_u64(), None);
    assert_eq!(Json::Number("1.0".to_string()).as_u64(), None);
    assert_eq!(Json::Number("-1".to_string()).as_u64(), None);
    assert_eq!(Json::Str("1".to_string()).as_u64(), None);
}

#[test]
fn members_and_defaults() {
    let v = Json::Object(vec![
        ("name".to_string(), Json::Str("Item".to_string())),
        ("flag".to_string(), Json::Bool(true)),
    ]);
    assert_eq!(s(v.get("name").unwrap()), "Item");
    assert!(b(v.get("flag").unwrap()));
    assert!(v.get("missing").is_none());
    assert_eq!(s(&Json::Null), "");
    assert!(!b(&Json::Str("true".to_string())));
    assert_eq!(render(&copy(&v), 0), render(&v, 0));
}
