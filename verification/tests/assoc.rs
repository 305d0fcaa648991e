use eleph_gen_wordpress::assoc::{find, position, put_entry, sorted_put_entry};

fn entries(v: &[(&str, &str)]) -> Vec<(String, String)> {
    v.iter().map(|(k, x)| (k.to_string(), x.to_string())).collect()
}

#[test]
fn put_replaces_in_place_or_appends() {
    let mut m = entries(&[("id", "ID"), ("title", "Title")]);
    put_entry(&mut m, "id".to_string(), "Id".to_string());
    assert_eq!(m, entries(&[("id", "Id"), ("title", "Title")]));
    put_entry(&mut m, "body".to_string(), "Body".to_string());
    assert_eq!(m, entries(&[("id", "Id"), ("title", "Title"), ("body", "Body")]));
}

#[test]
fn sorted_put_keeps_keys_in_order() {
    let mut m: Vec<(String, String)> = Vec::new();
    for k in ["post", "item", "zed", "item", "Item"] {
        sorted_put_entry(&mut m, k.to_string(), format!("{k}!"));
    }
    assert_eq!(
        m,
        entries(&[("Item", "Item!"), ("item", "item!"), ("post", "post!"), ("zed", "zed!")])
    );
}

#[test]
fn lookups_go_by_the_first_entry() {
    let m = entries(&[("a", "1"), ("b", "2"), ("a", "3")]);
    assert_eq!(position(&m, "a"), Some(0));
    assert_eq!(position(&m, "b"), Some(1));
    assert_eq!(position(&m, "c"), None);
    assert_eq!(find(&m, "a"), Some(&"1".to_string()));
}
