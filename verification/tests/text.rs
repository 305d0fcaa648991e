use eleph_gen_wordpress::text::{humanise, less, low, plural, q, snake};

#[test]
fn quotes_escape_backslashes_and_quotes() {
    assert_eq!(q("it's"), "'it\\'s'");
    assert_eq!(q("a\\b"), "'a\\\\b'");
    assert_eq!(q(""), "''");
    assert_eq!(q("plain"), "'plain'");
}

#[test]
fn snake_case_of_camel_case() {
    assert_eq!(snake("wpPostId"), "wp_post_id");
    assert_eq!(snake("Item"), "item");
    assert_eq!(snake("BlogPost"), "blog_post");
    assert_eq!(snake("already_snake"), "already_snake");
    assert_eq!(snake(&snake("HTTPServer")), snake("HTTPServer"));
    assert_eq!(snake("HTTPServer"), "h_t_t_p_server");
}

#[test]
fn low_lowercases_only_the_first_character() {
    assert_eq!(low("Item"), "item");
    assert_eq!(low("BlogPost"), "blogPost");
    assert_eq!(low("Écrit"), "écrit");
    assert_eq!(low(""), "");
}

#[test]
fn labels_and_plurals() {
    assert_eq!(humanise("BlogPost"), "Blog Post");
    assert_eq!(humanise("Item"), "Item");
    assert_eq!(humanise(" Item"), "Item");
    assert_eq!(humanise("createdAt"), "created At");
    assert_eq!(plural("Category"), "Categories");
    assert_eq!(plural("Box"), "Boxes");
    assert_eq!(plural("Church"), "Churches");
    assert_eq!(plural("Wish"), "Wishes");
    assert_eq!(plural("Bus"), "Buses");
    assert_eq!(plural("Quiz"), "Quizes");
    assert_eq!(plural("Day"), "Days");
    assert_eq!(plural("Y"), "Ys");
    assert_eq!(plural("Item"), "Items");
    assert_eq!(plural("PARTY"), "PARTies");
}

#[test]
fn keys_sort_by_character() {
    assert!(less("Alpha", "Beta"));
    assert!(!less("Beta", "Alpha"));
    assert!(less("Item", "ItemType"));
    assert!(!less("Item", "Item"));
    assert!(less("Zed", "alpha"));
}

#[test]
fn snake_case_only_adds_underscores() {
    for s in ["wpPostId", "HTTPServer", "already_snake", "Écrit_Là"] {
        assert_eq!(snake(s).replace('_', ""), s.to_ascii_lowercase().replace('_', ""));
        assert!(!snake(s).chars().any(|c| c.is_ascii_uppercase()));
    }
}

#[test]
fn humanise_only_adds_spaces_before_capitals() {
    let h = humanise("BlogPostItem");
    assert_eq!(h, "Blog Post Item");
    assert_eq!(h.replace(' ', ""), "BlogPostItem");
    assert_eq!(h.trim(), h);
    assert_eq!(h.matches(' ').count(), 2);
}

#[test]
fn plural_reads_the_byte_before_a_final_y() {
    assert_eq!(plural("Éy"), "Éies");
    assert_eq!(plural("Ay"), "Ays");
    assert_eq!(plural("Key"), "Keys");
    assert_eq!(plural("Ç"), "Çs");
    assert_eq!(plural(""), "s");
}
