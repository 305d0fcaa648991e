use eleph_gen_wordpress::admin;
use eleph_gen_wordpress::ir::{
    Cardinality, EdgeDefinition, EdgeInverse, EntityDefinition, FieldDefinition, IrMap, OnDelete, Origin,
    Primitive, ProjectDefinition, Schema, StorageDefinition, TerminalRule, TypeReference,
};
use eleph_gen_wordpress::json::Json;
use eleph_gen_wordpress::registration;
use eleph_gen_wordpress::storage;

fn map<T>(entries: Vec<(&str, T)>) -> IrMap<T> {
    IrMap {
        entries: entries
            .into_iter()
            .map(|(k, v)| (k.to_string(), v))
            .collect(),
    }
}

fn text(s: &str) -> Json {
    Json::Str(s.to_string())
}

fn entity(name: &str, table: &str, handle: Option<&str>) -> EntityDefinition {
    EntityDefinition {
        name: name.to_string(),
        storage: StorageDefinition {
            driver: "wordpress".to_string(),
            table: table.to_string(),
            handle: handle.map(str::to_string),
        },
        source_file: format!("{table}.yml"),
        description: None,
        uses: vec![],
        fields: map(vec![]),
        edges: map(vec![]),
        queries: map(vec![]),
        actions: map(vec![]),
        triggers: map(vec![]),
        config: map(vec![]),
        integrations: map(vec![]),
        applied_patterns: vec![],
        read_policies: map(vec![]),
        write_policies: map(vec![]),
        terminal_read: TerminalRule::Deny,
        terminal_write: TerminalRule::Deny,
    }
}

fn field(name: &str, primitive: Primitive) -> FieldDefinition {
    FieldDefinition {
        name: name.to_string(),
        ty: TypeReference {
            primitive: Some(primitive),
            declared_type: None,
        },
        origin: Origin {
            pattern: None,
            file: "item.yml".to_string(),
        },
        description: None,
        required: false,
        nullable: false,
        default_value: Json::Null,
        has_default: false,
        unique: false,
        indexed: false,
        immutable: false,
        managed: None,
        max_length: None,
        enum_source: None,
        verify: false,
    }
}

fn edge(name: &str, to: &str, cardinality: Cardinality) -> EdgeDefinition {
    EdgeDefinition {
        name: name.to_string(),
        to: to.to_string(),
        cardinality,
        origin: Origin {
            pattern: None,
            file: "item.yml".to_string(),
        },
        description: None,
        inverse: None,
        on_delete: OnDelete::Restrict,
        required: false,
    }
}

fn link_posts(on: bool) -> IrMap<IrMap<Json>> {
    map(vec![("wordpress", map(vec![("linkPosts", Json::Bool(on))]))])
}

fn schema(entities: Vec<(&str, EntityDefinition)>) -> Schema {
    Schema {
        project: ProjectDefinition {
            name: "Demo".to_string(),
            driver: "wordpress".to_string(),
            source_file: "project.yml".to_string(),
            integrations: map(vec![]),
            table_prefix: String::new(),
            description: None,
        },
        entities: map(entities),
        types: map(vec![]),
        patterns: map(vec![]),
    }
}

fn file(v: &Json) -> (String, String) {
    let member = |key: &str| match v {
        Json::Object(m) => match &m.iter().find(|(k, _)| k == key).expect("member").1 {
            Json::Str(s) => s.clone(),
            _ => panic!("not a string"),
        },
        _ => panic!("not an object"),
    };
    (member("path"), member("body"))
}

#[test]
fn post_type_registration_in_full() {
    let mut post = entity("BlogPost", "blog_post", Some("blog_post"));
    post.description = Some("Posts of the blog".to_string());
    post.integrations = map(vec![(
        "wordpress",
        map(vec![
            ("linkPosts", Json::Bool(true)),
            ("adminTemplates", Json::Bool(false)),
        ]),
    )]);
    post.config = map(vec![
        ("visibility", text("public")),
        ("showInRest", Json::Bool(true)),
        ("adminMenu", text("tools.php")),
        ("capabilityType", text("page")),
        (
            "supports",
            Json::Array(vec![text("title"), Json::Number("3".to_string()), text("editor")]),
        ),
    ]);
    let s = schema(vec![("BlogPost", post)]);
    let expected = "<?php\nreturn [\n    'blog_post' => [\n        'labels' => [\n            'name' => 'Blog Posts',\n            'singular_name' => 'Blog Post',\n            'add_new_item' => 'Add New Blog Post',\n            'edit_item' => 'Edit Blog Post',\n            'new_item' => 'New Blog Post',\n            'view_item' => 'View Blog Post',\n            'search_items' => 'Search Blog Posts',\n            'not_found' => 'No blog posts found',\n            'not_found_in_trash' => 'No blog posts found in Trash',\n        ],\n        'description' => 'Posts of the blog',\n        'public' => true,\n        'publicly_queryable' => true,\n        'exclude_from_search' => false,\n        'show_ui' => true,\n        'show_in_menu' => 'tools.php',\n        'show_in_rest' => true,\n        'capability_type' => 'page',\n        'supports' => [\n            0 => 'title',\n            1 => 'editor',\n        ],\n    ],\n];\n";
    assert_eq!(registration::generate(&s, false, "<?php\n"), expected);
    assert_eq!(registration::generate(&s, true, ""), "return [];\n");
}

#[test]
fn post_types_without_admin_screens_default_off() {
    let mut item = entity("Item", "item", Some("item"));
    item.integrations = link_posts(true);
    let s = schema(vec![("Item", item)]);
    let out = registration::generate(&s, false, "");
    assert!(out.contains("        'description' => '',\n        'public' => false,\n        'publicly_queryable' => false,\n        'exclude_from_search' => true,\n        'show_ui' => false,\n        'show_in_menu' => false,\n        'show_in_rest' => false,\n        'capability_type' => 'post',\n        'supports' => [],\n"));
    assert!(out.contains("'not_found' => 'No items found',"));
}

#[test]
fn taxonomy_registration_in_full() {
    let mut tag = entity("Tag", "tag", Some("post_tag"));
    tag.config = map(vec![
        ("taxonomy", Json::Bool(true)),
        ("hierarchical", Json::Bool(true)),
        ("showInAdmin", Json::Bool(false)),
        ("public", Json::Bool(false)),
    ]);
    let mut item = entity("Item", "item", Some("item"));
    item.integrations = link_posts(true);
    item.edges = map(vec![("tags", edge("tags", "Tag", Cardinality::Many))]);
    let mut note = entity("Note", "note", Some("note"));
    note.edges = map(vec![("tags", edge("tags", "Tag", Cardinality::Many))]);
    let s = schema(vec![("Tag", tag), ("Item", item), ("Note", note)]);
    let expected = "return [\n    'post_tag' => [\n        'labels' => [\n            'name' => 'Tags',\n            'singular_name' => 'Tag',\n            'search_items' => 'Search Tags',\n            'all_items' => 'All Tags',\n            'edit_item' => 'Edit Tag',\n            'add_new_item' => 'Add New Tag',\n            'new_item_name' => 'New Tag Name',\n        ],\n        'description' => '',\n        'public' => false,\n        'publicly_queryable' => false,\n        'hierarchical' => true,\n        'show_ui' => false,\n        'show_admin_column' => false,\n        'show_in_rest' => false,\n        'object_type' => [\n            0 => 'item',\n        ],\n    ],\n];\n";
    assert_eq!(registration::generate(&s, true, ""), expected);
}

#[test]
fn registrations_are_sorted_by_handle() {
    let mut b = entity("Bee", "bee", Some("zz_bee"));
    b.integrations = link_posts(true);
    let mut a = entity("Ant", "ant", Some("aa_ant"));
    a.integrations = link_posts(true);
    let out = registration::generate(&schema(vec![("Bee", b), ("Ant", a)]), false, "");
    let ant = out.find("'aa_ant' => [").unwrap();
    let bee = out.find("'zz_bee' => [").unwrap();
    assert!(ant < bee);
}

#[test]
fn admin_templates_in_full() {
    let mut item = entity("Item", "item", None);
    item.config = map(vec![("label", text("Thing")), ("adminMenu", text("tools.php"))]);
    item.fields = map(vec![
        ("createdAt", field("createdAt", Primitive::Datetime)),
        ("title", field("title", Primitive::String)),
    ]);
    let mut hidden = entity("Hidden", "hidden", None);
    hidden.config = map(vec![("showInAdmin", Json::Bool(false))]);
    let s = schema(vec![("Item", item), ("Hidden", hidden)]);
    let files: Vec<(String, String)> = admin::generate(&s).iter().map(file).collect();
    let fields = "[\n        'id' => 'ID',\n        'createdAt' => 'Created At',\n        'title' => 'Title',\n    ]";
    let view = |method: &str, title: &str| {
        format!("use Eleph\\WordPress\\Admin\\View;\n\nreturn static function (View $view, array $data): void {{\n    /** @var array<string, mixed> $data */\n    $view->{method}('{title}', {fields}, $data);\n}};\n")
    };
    assert_eq!(
        files,
        vec![
            (
                "admin-pages.php".to_string(),
                "return [\n    'Item' => [\n        'label' => 'Things',\n        'slug' => 'eleph-item',\n        'parent' => 'tools.php',\n        'list' => 'admin/Item/list.php',\n        'detail' => 'admin/Item/detail.php',\n    ],\n];\n".to_string()
            ),
            ("admin/Item/list.php".to_string(), view("listing", "Things")),
            ("admin/Item/detail.php".to_string(), view("detail", "Thing")),
        ]
    );
}

#[test]
fn admin_field_named_id_replaces_the_id_column() {
    let mut item = entity("Item", "item", None);
    item.fields = map(vec![("id", field("id", Primitive::Id))]);
    let s = schema(vec![("Item", item)]);
    let files: Vec<(String, String)> = admin::generate(&s).iter().map(file).collect();
    assert!(files[1].1.contains("$view->listing('Items', [\n        'id' => 'Id',\n    ], $data);"));
    assert!(files[0].1.contains("'parent' => null,"));
}

#[test]
fn no_admin_pages_without_entities() {
    let files: Vec<(String, String)> = admin::generate(&schema(vec![])).iter().map(file).collect();
    assert_eq!(files, vec![("admin-pages.php".to_string(), "return [];\n".to_string())]);
}

#[test]
fn edge_columns_may_not_collide_with_fields() {
    let mut item = entity("Item", "item", None);
    item.fields = map(vec![("ownerId", field("ownerId", Primitive::Int))]);
    item.edges = map(vec![("owner", edge("owner", "Owner", Cardinality::One))]);
    let owner = entity("Owner", "owner", None);
    let s = schema(vec![("Item", item), ("Owner", owner)]);
    assert_eq!(
        storage::generate(&s, "").err().unwrap(),
        "Edge Item.owner needs column \"owner_id\" on item, but a field already claims it."
    );
}

#[test]
fn many_to_many_edges_get_join_tables() {
    let mut item = entity("Item", "item", None);
    item.edges = map(vec![("related", edge("related", "Item", Cardinality::Many))]);
    let mut person = entity("Person", "person", None);
    person.edges = map(vec![("items", edge("items", "Item", Cardinality::Many))]);
    let s = schema(vec![("Item", item), ("Person", person)]);
    let m = storage::generate(&s, "").unwrap();
    assert!(m.contains("        'item_related' => new TableSchema(\n            'item_related',\n            [\n                'item_id' => new Column('item_id', 'BIGINT UNSIGNED', false, false, null),\n                'related_id' => new Column('related_id', 'BIGINT UNSIGNED', false, false, null),\n            ],\n            [\n                'item_related_pair_uniq' => new Index('item_related_pair_uniq', ['item_id', 'related_id'], true),\n                'item_related_related_id_idx' => new Index('item_related_related_id_idx', ['related_id'], false),\n            ],\n            '',\n        ),\n"));
    assert!(m.contains("'person_items' => new TableSchema(\n            'person_items',\n            [\n                'person_id' => new Column('person_id', 'BIGINT UNSIGNED', false, false, null),\n                'item_id' => new Column('item_id', 'BIGINT UNSIGNED', false, false, null),\n"));
    assert!(m.contains("        'Item.related' => new EdgePlacement(\n            'Item',\n            'related',\n            'Item',\n            RelationKind::ManyToMany,\n            'item_related',\n            'item_id',\n            'related_id',\n            'item',\n        ),\n"));
}

fn inverse(derived: bool, name: Option<&str>, unique: bool) -> Option<EdgeInverse> {
    Some(EdgeInverse {
        derived,
        name: name.map(str::to_string),
        unique,
    })
}

#[test]
fn one_to_many_and_one_to_one_edges_add_columns() {
    let mut owner = entity("Owner", "owner", None);
    let mut items = edge("items", "Item", Cardinality::Many);
    items.inverse = inverse(false, Some("keeper"), true);
    owner.edges = map(vec![("items", items)]);
    let mut item = entity("Item", "item", None);
    let mut profile = edge("profile", "Owner", Cardinality::One);
    profile.inverse = inverse(true, None, true);
    item.edges = map(vec![("profile", profile)]);
    let s = schema(vec![("Owner", owner), ("Item", item)]);
    let m = storage::generate(&s, "").unwrap();
    assert!(m.contains("        'Item' => new TableSchema(\n            'item',\n            [\n                'id' => new Column('id', 'BIGINT UNSIGNED', false, true, null),\n                'keeper_id' => new Column('keeper_id', 'BIGINT UNSIGNED', true, false, null),\n                'profile_id' => new Column('profile_id', 'BIGINT UNSIGNED', true, false, null),\n            ],\n            [\n                'item_keeper_id_idx' => new Index('item_keeper_id_idx', ['keeper_id'], false),\n                'item_profile_id_uniq' => new Index('item_profile_id_uniq', ['profile_id'], true),\n            ],\n            'id',\n        ),\n"));
    assert!(m.contains("    placements: [\n        'Owner.items' => new EdgePlacement(\n            'Owner',\n            'items',\n            'Item',\n            RelationKind::OneToMany,\n            'item',\n            'keeper_id',\n            null,\n            'item',\n        ),\n        'Item.profile' => new EdgePlacement(\n            'Item',\n            'profile',\n            'Owner',\n            RelationKind::OneToOne,\n            'item',\n            'profile_id',\n            null,\n            'owner',\n        ),\n    ],\n"));
}

#[test]
fn edges_to_unknown_entities_are_skipped() {
    let mut item = entity("Item", "item", None);
    item.edges = map(vec![("ghost", edge("ghost", "Nope", Cardinality::One))]);
    let m = storage::generate(&schema(vec![("Item", item)]), "").unwrap();
    assert!(m.contains("    placements: [\n\n    ],\n"));
    assert!(!m.contains("ghost_id"));
}

#[test]
fn edges_onto_tableless_targets_add_no_column() {
    let mut tag = entity("Tag", "tag", Some("post_tag"));
    tag.config = map(vec![("taxonomy", Json::Bool(true))]);
    let mut item = entity("Item", "item", None);
    let mut tags = edge("tags", "Tag", Cardinality::Many);
    tags.inverse = inverse(true, None, true);
    item.edges = map(vec![("tags", tags)]);
    let m = storage::generate(&schema(vec![("Tag", tag), ("Item", item)]), "").unwrap();
    assert!(m.contains("        'Item.tags' => new EdgePlacement(\n            'Item',\n            'tags',\n            'Tag',\n            RelationKind::OneToMany,\n            'tag',\n            'item_id',\n            null,\n            'tag',\n        ),\n"));
    assert!(!m.contains("new Column('item_id'"));
    assert!(m.contains("    taxonomies: [\n        'Tag' => 'post_tag',\n    ],\n"));
}

#[test]
fn a_join_table_whose_sides_share_a_column_name_has_one_column() {
    let mut post = entity("Post", "post", None);
    post.edges = map(vec![("links", edge("links", "post2", Cardinality::Many))]);
    let other = entity("post", "post_b", None);
    let m = storage::generate(&schema(vec![("Post", post), ("post2", other)]), "").unwrap();
    assert!(m.contains("        'post_links' => new TableSchema(\n            'post_links',\n            [\n                'post_id' => new Column('post_id', 'BIGINT UNSIGNED', false, false, null),\n            ],\n            [\n                'post_links_pair_uniq' => new Index('post_links_pair_uniq', ['post_id', 'post_id'], true),\n                'post_links_post_id_idx' => new Index('post_links_post_id_idx', ['post_id'], false),\n            ],\n            '',\n        ),\n"));
}

#[test]
fn a_join_table_replaces_an_entity_table_of_its_name() {
    let mut item = entity("Item", "item", None);
    item.edges = map(vec![("tags", edge("tags", "Label", Cardinality::Many))]);
    let label = entity("Label", "label", None);
    let extra = entity("Extra", "item_tags", None);
    let m = storage::generate(
        &schema(vec![("Item", item), ("Label", label), ("Extra", extra)]),
        "",
    )
    .unwrap();
    assert!(m.contains("        'Extra' => new TableSchema(\n            'item_tags',\n            [\n                'item_id' => new Column('item_id', 'BIGINT UNSIGNED', false, false, null),\n                'label_id' => new Column('label_id', 'BIGINT UNSIGNED', false, false, null),\n            ],\n"));
    assert!(m.contains("    joinTables: [\n\n    ],\n"));
}

#[test]
fn a_later_registration_of_a_handle_wins() {
    let mut a = entity("Alpha", "alpha", Some("same"));
    a.integrations = link_posts(true);
    let mut b = entity("Beta", "beta", Some("same"));
    b.integrations = link_posts(true);
    let out = registration::generate(&schema(vec![("Alpha", a), ("Beta", b)]), false, "");
    assert!(out.contains("'name' => 'Betas',"));
    assert!(!out.contains("Alpha"));
    assert_eq!(out.matches("'same' => [").count(), 1);
}

#[test]
fn taxonomies_list_a_post_type_once_per_edge() {
    let mut tag = entity("Tag", "tag", Some("post_tag"));
    tag.config = map(vec![("taxonomy", Json::Bool(true))]);
    let mut item = entity("Item", "item", Some("item"));
    item.integrations = link_posts(true);
    item.edges = map(vec![
        ("tags", edge("tags", "Tag", Cardinality::Many)),
        ("topics", edge("topics", "Tag", Cardinality::Many)),
    ]);
    let out = registration::generate(&schema(vec![("Item", item), ("Tag", tag)]), true, "");
    assert!(out.contains("        'object_type' => [\n            0 => 'item',\n            1 => 'item',\n        ],\n"));
}
